//! Deciding what to call a file, and then calling it that.
//!
//! Planning decides, per file, whether it moves and where; applying
//! walks those decisions and moves files. A preview is the plan,
//! rendered; an applying run carries out the identical plan, so what a
//! preview shows is what a later `--apply` does.

use vstd::prelude::*;
use crate::event::{Counts, Event, SkipReason, observed, room_for};
use crate::paths::{extension, extension_spec};

verus! {

/// Why a file could not be moved.
#[derive(Debug, Clone, PartialEq, Eq)]
pub struct RenameError {
    pub message: String,
}

/// What the planner decided for one file.
#[derive(Debug, Clone, PartialEq, Eq)]
pub enum PlannedRename {
    /// Move `path` to `target`, which is free.
    Rename { path: String, target: String },
    /// `path` already carries the name its record implies.
    AlreadyNamed { path: String },
    /// Leave `path` alone: `target` is taken and the policy is to skip.
    TargetTaken { path: String, target: String },
    /// Leave `path` alone: its record renders no usable name.
    Unnameable { path: String },
}

/// The file a decision is about.
pub open spec fn decision_path(d: PlannedRename) -> String {
    match d {
        PlannedRename::Rename { path, .. } => path,
        PlannedRename::AlreadyNamed { path } => path,
        PlannedRename::TargetTaken { path, .. } => path,
        PlannedRename::Unnameable { path } => path,
    }
}

impl PlannedRename {
    /// The file this decision is about.
    pub fn path(&self) -> (r: &String)
        ensures
            *r == decision_path(*self),
    {
        match self {
            PlannedRename::Rename { path, .. } => path,
            PlannedRename::AlreadyNamed { path } => path,
            PlannedRename::TargetTaken { path, .. } => path,
            PlannedRename::Unnameable { path } => path,
        }
    }
}

/// The name a rendered template gives the file at `path`, before it is
/// sanitized: `None` when the template rendered nothing, and otherwise
/// the rendered text with `path`'s own extension appended.
pub open spec fn named_spec(path: Seq<char>, rendered: Seq<char>) -> Option<Seq<char>> {
    if rendered.len() == 0 {
        None
    } else {
        match extension_spec(path) {
            Some(ext) => Some(rendered + "."@ + ext),
            None => Some(rendered),
        }
    }
}

/// The name the rendered template `rendered` gives the file at `path`,
/// before sanitizing: a rename changes what a file is called, never what
/// it is, so `path`'s extension goes on, and it goes on before the name
/// is sanitized so that a length limit cuts the stem and keeps it.
pub fn named(path: &str, rendered: &str) -> (r: Option<String>)
    ensures
        r matches Some(n) ==> named_spec(path@, rendered@) == Some(n@),
        r is None ==> named_spec(path@, rendered@) is None,
{
    if rendered.unicode_len() == 0 {
        return None;
    }
    match extension(path) {
        Some(ext) => {
            let mut r = String::from_str(rendered);
            r.append(".");
            r.append(ext.as_str());
            Some(r)
        },
        None => Some(String::from_str(rendered)),
    }
}

/// The subdirectory a target name reaches into: everything before its
/// last `/`, or `None` when it names a file in the directory itself.
pub open spec fn subdirectory_spec(target: Seq<char>) -> Option<Seq<char>> {
    let i = crate::paths::last_index(target, '/');
    if i < 0 {
        None
    } else {
        Some(target.take(i))
    }
}

/// The subdirectory `target` reaches into, which a plan has to look at
/// before it can say a name there is free.
pub fn subdirectory(target: &str) -> (r: Option<String>)
    ensures
        r matches Some(s) ==> subdirectory_spec(target@) == Some(s@),
        r is None ==> subdirectory_spec(target@) is None,
{
    match crate::paths::find_last(target, '/') {
        Some(i) => Some(crate::text::head(target, i)),
        None => None,
    }
}

/// Whether one of `names` reads `name`.
pub open spec fn listed_in(names: Seq<String>, name: Seq<char>) -> bool {
    exists|i: int| 0 <= i < names.len() && #[trigger] names[i]@ == name
}

/// The subdirectory `target` reaches into that the plan has not looked
/// at yet, now recorded in `listed` as looked at; `None` when `target`
/// names a file in the directory itself or a subdirectory the plan has
/// already looked at. A name is free only if nothing holds it where the
/// file is going, so each subdirectory a target names is listed once,
/// the first time one does.
pub fn reach(listed: &mut Vec<String>, target: &str) -> (r: Option<String>)
    ensures
        match subdirectory_spec(target@) {
            None => r is None && final(listed)@ == old(listed)@,
            Some(sub) => if listed_in(old(listed)@, sub) {
                r is None && final(listed)@ == old(listed)@
            } else {
                &&& r matches Some(s) && s@ == sub
                &&& final(listed)@.len() == old(listed)@.len() + 1
                &&& final(listed)@.drop_last() == old(listed)@
                &&& final(listed)@.last()@ == sub
            },
        },
{
    let sub = match subdirectory(target) {
        None => return None,
        Some(sub) => sub,
    };
    let mut i: usize = 0;
    while i < listed.len()
        invariant
            i <= listed@.len(),
            listed@ == old(listed)@,
            subdirectory_spec(target@) == Some(sub@),
            forall|j: int| 0 <= j < i ==> listed@[j]@ != sub@,
        decreases listed@.len() - i,
    {
        if crate::text::same(listed[i].as_str(), sub.as_str()) {
            assert(listed@[i as int]@ == sub@);
            assert(listed_in(old(listed)@, sub@));
            return None;
        }
        i = i + 1;
    }
    assert(!listed_in(listed@, sub@));
    let ghost before = listed@;
    listed.push(sub.clone());
    assert(listed@.drop_last() =~= before);
    assert(listed@.last() == sub);
    Some(sub)
}

/// What listing the subdirectory `sub` adds to the plan's namespace:
/// each name `listing` gives, as `sub/name`, with its hash.
pub fn widened(sub: &str, listing: &Vec<(String, Option<String>)>) -> (r: Vec<(String, Option<String>)>)
    ensures
        r@.len() == listing@.len(),
        forall|i: int|
            0 <= i < listing@.len() ==> (#[trigger] r@[i]).0@ == sub@ + seq!['/'] + listing@[i].0@
                && r@[i].1 == listing@[i].1,
{
    let mut r: Vec<(String, Option<String>)> = Vec::new();
    let mut i: usize = 0;
    while i < listing.len()
        invariant
            i <= listing@.len(),
            r@.len() == i,
            forall|j: int|
                0 <= j < i ==> (#[trigger] r@[j]).0@ == sub@ + seq!['/'] + listing@[j].0@ && r@[j].1
                    == listing@[j].1,
        decreases listing@.len() - i,
    {
        let mut name = String::from_str(sub);
        crate::text::push_char(&mut name, '/');
        name.append(listing[i].0.as_str());
        r.push((name, crate::cli::copy_opt(&listing[i].1)));
        i = i + 1;
    }
    r
}

/// The event carrying out `decision` reports, given `hash` and what the
/// move answered when one was made.
pub open spec fn carried_out(
    decision: PlannedRename,
    apply: bool,
    hash: Option<String>,
    moved: Result<(), String>,
) -> Event {
    match decision {
        PlannedRename::Rename { path, target } => if !apply {
            Event::Planned { path, target }
        } else {
            match hash {
                None => Event::Skipped {
                    path,
                    reason: SkipReason::Unrecordable { message: arbitrary() },
                },
                Some(h) => match moved {
                    Ok(_) => Event::Renamed { path, target, hash: h },
                    Err(m) => Event::Skipped { path, reason: SkipReason::RenameFailed { message: m } },
                },
            }
        },
        PlannedRename::AlreadyNamed { path } => Event::Skipped {
            path,
            reason: SkipReason::AlreadyNamed,
        },
        PlannedRename::TargetTaken { path, target } => Event::Skipped {
            path,
            reason: SkipReason::TargetTaken { target },
        },
        PlannedRename::Unnameable { path } => Event::Skipped { path, reason: SkipReason::Unnameable },
    }
}

/// Whether `event` is what carrying out `decision` may report, when the
/// move, if one was made, is made by `rename`.
///
/// A preview reports a rename as planned and moves nothing; an applying
/// run without the file's hash refuses the move as unrecordable; with
/// it, the move is made and reported renamed, carrying the hash, or
/// skipped with the message it failed with. Decisions that move nothing
/// report the same way in both modes.
pub open spec fn carry_out_ok<R>(
    decision: PlannedRename,
    apply: bool,
    hash: Option<String>,
    rename: R,
    event: Event,
) -> bool where R: Fn(String, String) -> Result<(), String> {
    match decision {
        PlannedRename::Rename { path, target } => if apply && hash is Some {
            exists|moved: Result<(), String>|
                #[trigger] call_ensures(rename, (path, target), moved) && event == carried_out(
                    decision,
                    apply,
                    hash,
                    moved,
                )
        } else if apply {
            event matches Event::Skipped { path: p, reason: SkipReason::Unrecordable { message } }
                && p == path && message@ == "the file's content hash is unknown"@
        } else {
            event == carried_out(decision, apply, hash, Ok(()))
        },
        _ => event == carried_out(decision, apply, hash, Ok(())),
    }
}

/// Carrying out a plan, a decision at a time.
pub struct Applying {
    apply: bool,
}

impl Applying {
    /// Whether this run moves files.
    pub closed spec fn applies(&self) -> bool {
        self.apply
    }

    /// A run that moves files when `apply` is set and otherwise only
    /// says what it would move.
    pub fn new(apply: bool) -> (a: Applying)
        ensures
            a.applies() == apply,
    {
        Applying { apply }
    }

    /// Carry out `decision`, or report what it would do, and say what
    /// happened. `hash` is the content hash of the file it is about, and
    /// `rename` makes a move.
    pub fn carry_out<R>(&mut self, decision: &PlannedRename, hash: Option<String>, rename: &R) -> (e:
        Event) where R: Fn(String, String) -> Result<(), String>
        requires
            forall|a: String, b: String| call_requires(*rename, (a, b)),
        ensures
            final(self).applies() == old(self).applies(),
            carry_out_ok(*decision, old(self).applies(), hash, *rename, e),
    {
        match decision {
            PlannedRename::Rename { path, target } => {
                if self.apply {
                    match hash {
                        None => Event::Skipped {
                            path: path.clone(),
                            reason: SkipReason::Unrecordable {
                                message: String::from_str("the file's content hash is unknown"),
                            },
                        },
                        Some(h) => {
                            let from = path.clone();
                            let to = target.clone();
                            let moved = rename(from, to);
                            assert(call_ensures(*rename, (*path, *target), moved));
                            match moved {
                                Ok(unit) => {
                                    assert(moved == Ok::<(), String>(unit));
                                    Event::Renamed { path: path.clone(), target: target.clone(), hash: h }
                                },
                                Err(message) => Event::Skipped {
                                    path: path.clone(),
                                    reason: SkipReason::RenameFailed { message },
                                },
                            }
                        },
                    }
                } else {
                    Event::Planned { path: path.clone(), target: target.clone() }
                }
            },
            PlannedRename::AlreadyNamed { path } => Event::Skipped {
                path: path.clone(),
                reason: SkipReason::AlreadyNamed,
            },
            PlannedRename::TargetTaken { path, target } => Event::Skipped {
                path: path.clone(),
                reason: SkipReason::TargetTaken { target: target.clone() },
            },
            PlannedRename::Unnameable { path } => Event::Skipped {
                path: path.clone(),
                reason: SkipReason::Unnameable,
            },
        }
    }
}

/// The hash `hashes` pairs with the decision at `position`: none where
/// `hashes` does not reach.
pub open spec fn hash_at(hashes: Seq<Option<String>>, position: int) -> Option<String> {
    if 0 <= position < hashes.len() {
        hashes[position]
    } else {
        None
    }
}

/// Carry out `plan`, or report what it would do, one event per decision
/// in plan order. `hashes` pairs with `plan` by position; a position it
/// does not reach has no hash.
pub fn apply_renames<R>(plan: &Vec<PlannedRename>, rename: &R, apply: bool, hashes: &Vec<
    Option<String>,
>) -> (events: Vec<Event>) where R: Fn(String, String) -> Result<(), String>
    requires
        forall|a: String, b: String| call_requires(*rename, (a, b)),
    ensures
        events@.len() == plan@.len(),
        forall|i: int|
            0 <= i < plan@.len() ==> carry_out_ok(
                plan@[i],
                apply,
                hash_at(hashes@, i),
                *rename,
                #[trigger] events@[i],
            ),
{
    let mut applying = Applying::new(apply);
    let mut events: Vec<Event> = Vec::new();
    let mut i: usize = 0;
    while i < plan.len()
        invariant
            i <= plan@.len(),
            events@.len() == i,
            applying.applies() == apply,
            forall|a: String, b: String| call_requires(*rename, (a, b)),
            forall|j: int|
                0 <= j < i ==> carry_out_ok(
                    plan@[j],
                    apply,
                    hash_at(hashes@, j),
                    *rename,
                    #[trigger] events@[j],
                ),
        decreases plan@.len() - i,
    {
        let hash = if i < hashes.len() {
            crate::cli::copy_opt(&hashes[i])
        } else {
            None
        };
        let e = applying.carry_out(&plan[i], hash, rename);
        events.push(e);
        i = i + 1;
    }
    events
}

/// The totals `events` add up to: [`observed`] folded over them.
pub open spec fn counts_spec(events: Seq<Event>) -> Counts
    decreases events.len(),
{
    if events.len() == 0 {
        Counts { resolved: 0, renamed: 0, skipped: 0, unmatched: 0 }
    } else {
        observed(counts_spec(events.drop_last()), events.last())
    }
}

proof fn lemma_counts_bounded(events: Seq<Event>)
    ensures
        counts_spec(events).resolved <= events.len(),
        counts_spec(events).renamed <= events.len(),
        counts_spec(events).skipped <= events.len(),
        counts_spec(events).unmatched <= events.len(),
    decreases events.len(),
{
    if events.len() > 0 {
        lemma_counts_bounded(events.drop_last());
    }
}

/// The totals `events` add up to, counted the way a streaming run
/// counts them.
pub fn counts_for(events: &Vec<Event>) -> (c: Counts)
    requires
        events@.len() < usize::MAX,
    ensures
        c == counts_spec(events@),
{
    let mut counts = Counts { resolved: 0, renamed: 0, skipped: 0, unmatched: 0 };
    let mut i: usize = 0;
    while i < events.len()
        invariant
            i <= events@.len(),
            events@.len() < usize::MAX,
            counts == counts_spec(events@.take(i as int)),
        decreases events@.len() - i,
    {
        proof {
            lemma_counts_bounded(events@.take(i as int));
            assert(events@.take(i + 1).drop_last() =~= events@.take(i as int));
        }
        counts.observe(&events[i]);
        i = i + 1;
    }
    assert(events@.take(events@.len() as int) =~= events@);
    counts
}

} // verus!

verus! {

proof fn lemma_no_renames(events: Seq<Event>)
    requires
        forall|i: int| 0 <= i < events.len() ==> !(#[trigger] events[i] is Renamed),
    ensures
        counts_spec(events).renamed == 0,
    decreases events.len(),
{
    if events.len() > 0 {
        assert forall|i: int| 0 <= i < events.drop_last().len() implies !(
        #[trigger] events.drop_last()[i] is Renamed) by {
            assert(events.drop_last()[i] == events[i]);
        }
        lemma_no_renames(events.drop_last());
        assert(!(events[events.len() - 1] is Renamed));
    }
}

/// A preview moves nothing: carried out without applying, no decision
/// of any plan is reported as a rename, so the run's totals count none
/// however many moves it described.
pub proof fn preview_renames_nothing<R>(
    plan: Seq<PlannedRename>,
    hashes: Seq<Option<String>>,
    rename: R,
    events: Seq<Event>,
) where R: Fn(String, String) -> Result<(), String>
    requires
        events.len() == plan.len(),
        forall|i: int|
            0 <= i < plan.len() ==> carry_out_ok(
                plan[i],
                false,
                hash_at(hashes, i),
                rename,
                #[trigger] events[i],
            ),
    ensures
        counts_spec(events).renamed == 0,
{
    assert forall|i: int| 0 <= i < events.len() implies !(#[trigger] events[i] is Renamed) by {
        assert(carry_out_ok(plan[i], false, hash_at(hashes, i), rename, events[i]));
    }
    lemma_no_renames(events);
}

/// What a preview shows is what applying does: for the same plan, a
/// decision that moves nothing is reported identically by both runs, and
/// a rename the preview shows as planned from `path` to `target` is, once
/// applied, either that very move, carrying the file's hash, or a skip
/// of the same file saying why it was not made.
pub proof fn preview_shows_what_apply_does<R>(
    plan: Seq<PlannedRename>,
    hashes: Seq<Option<String>>,
    rename: R,
    preview: Seq<Event>,
    applied: Seq<Event>,
) where R: Fn(String, String) -> Result<(), String>
    requires
        preview.len() == plan.len(),
        applied.len() == plan.len(),
        forall|i: int|
            0 <= i < plan.len() ==> carry_out_ok(
                plan[i],
                false,
                hash_at(hashes, i),
                rename,
                #[trigger] preview[i],
            ),
        forall|i: int|
            0 <= i < plan.len() ==> carry_out_ok(
                plan[i],
                true,
                hash_at(hashes, i),
                rename,
                #[trigger] applied[i],
            ),
    ensures
        forall|i: int|
            0 <= i < plan.len() ==> match #[trigger] plan[i] {
                PlannedRename::Rename { path, target } => {
                    &&& preview[i] == (Event::Planned { path, target })
                    &&& match applied[i] {
                        Event::Renamed { path: p, target: t, hash } => p == path && t == target
                            && hash_at(hashes, i) == Some(hash),
                        Event::Skipped { path: p, reason } => p == path && (reason is RenameFailed
                            || reason is Unrecordable),
                        _ => false,
                    }
                },
                _ => preview[i] == applied[i],
            },
{
    assert forall|i: int| 0 <= i < plan.len() implies match #[trigger] plan[i] {
        PlannedRename::Rename { path, target } => {
            &&& preview[i] == (Event::Planned { path, target })
            &&& match applied[i] {
                Event::Renamed { path: p, target: t, hash } => p == path && t == target && hash_at(
                    hashes,
                    i,
                ) == Some(hash),
                Event::Skipped { path: p, reason } => p == path && (reason is RenameFailed
                    || reason is Unrecordable),
                _ => false,
            }
        },
        _ => preview[i] == applied[i],
    } by {
        assert(carry_out_ok(plan[i], false, hash_at(hashes, i), rename, preview[i]));
        assert(carry_out_ok(plan[i], true, hash_at(hashes, i), rename, applied[i]));
    }
}

/// What the collision planner decided for one file.
#[derive(Debug, Clone, PartialEq, Eq)]
pub enum PlannedAction {
    /// Move the file to `to`, relative to its directory.
    Rename { to: String },
    /// The file already carries its name.
    AlreadyNamed,
    /// The name is taken and the policy is to leave the file alone.
    Skip,
}

/// The decision for the file at `path` in `directory`, whose template
/// gave the name `target`, once the planner has decided `action`: a
/// move to where the planner said, within the directory; the file
/// already named; or its name taken, reported as the path it wanted. A
/// file whose template gave no name is unnameable.
pub fn decision_for(
    path: String,
    directory: &str,
    target: Option<&str>,
    action: &PlannedAction,
) -> (r: PlannedRename)
    ensures
        match target {
            None => r == (PlannedRename::Unnameable { path }),
            Some(t) => match *action {
                PlannedAction::Rename { to } => r matches PlannedRename::Rename {
                    path: p,
                    target: moved,
                } && p == path && moved@ == crate::paths::join_spec(directory@, to@),
                PlannedAction::AlreadyNamed => r == (PlannedRename::AlreadyNamed { path }),
                PlannedAction::Skip => r matches PlannedRename::TargetTaken { path: p, target: taken }
                    && p == path && taken@ == crate::paths::join_spec(directory@, t@),
            },
        },
{
    let t = match target {
        Some(t) => t,
        None => return PlannedRename::Unnameable { path },
    };
    match action {
        PlannedAction::Rename { to } => PlannedRename::Rename {
            target: crate::paths::join(directory, to.as_str()),
            path,
        },
        PlannedAction::AlreadyNamed => PlannedRename::AlreadyNamed { path },
        PlannedAction::Skip => PlannedRename::TargetTaken {
            target: crate::paths::join(directory, t),
            path,
        },
    }
}

} // verus!
