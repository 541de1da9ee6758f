//! Bibliography output: the master `.bib` file and the per-file
//! sidecars.
//!
//! Two destinations, written independently so that a failure at one
//! does not cost the other: the master file accumulates every entry a
//! library has produced, and a sidecar carries one file's entry beside
//! the file itself. What lives here is which files are written, under
//! which key, and what the run says about it; reading, writing and
//! merging the bytes are the callers' operations, handed in.

use vstd::prelude::*;
use crate::config::DuplicatePolicy;
use crate::event::{Event, SkipReason};
use crate::text::{filtered, is_blank, is_whitespace};

verus! {

/// The extension a sidecar carries.
pub const SIDECAR_EXTENSION: &'static str = "bib";

/// Whether a citation key may carry `c`: not white space, and none of
/// the comma, braces and percent sign that end a key, open or close a
/// group, or start a comment where BibTeX reads one.
pub open spec fn key_char(c: char) -> bool {
    !is_whitespace(c) && c != ',' && c != '{' && c != '}' && c != '%'
}

/// `rendered` stripped of what a citation key cannot carry.
pub open spec fn key_text(rendered: Seq<char>) -> Seq<char> {
    filtered(rendered, |c: char| key_char(c))
}

/// The citation key a record whose key template rendered `rendered` is
/// cited under: what survives the stripping, or `None` when nothing
/// does, a record too sparse to cite.
pub open spec fn citation_key_spec(rendered: Seq<char>) -> Option<Seq<char>> {
    if key_text(rendered).len() == 0 {
        None
    } else {
        Some(key_text(rendered))
    }
}

/// A character is in what the stripping leaves of `s` exactly when it
/// is in `s` and a key may carry it.
proof fn lemma_key_text_contains(s: Seq<char>, c: char)
    ensures
        key_text(s).contains(c) <==> s.contains(c) && key_char(c),
    decreases s.len(),
{
    if s.len() > 0 {
        let front = s.drop_last();
        lemma_key_text_contains(front, c);
        let all = key_text(s);
        let part = key_text(front);
        assert(all == if key_char(s.last()) {
            part.push(s.last())
        } else {
            part
        });
        if front.contains(c) {
            let i = choose|i: int| 0 <= i < front.len() && front[i] == c;
            assert(s[i] == c);
        }
        if s.contains(c) && s.last() != c {
            let i = choose|i: int| 0 <= i < s.len() && s[i] == c;
            assert(front[i] == c);
        }
        if part.contains(c) {
            let i = choose|i: int| 0 <= i < part.len() && part[i] == c;
            assert(all[i] == c);
        }
        if key_char(s.last()) && s.last() == c {
            assert(all[all.len() - 1] == c);
        }
        if all.contains(c) && !(key_char(s.last()) && s.last() == c) {
            let i = choose|i: int| 0 <= i < all.len() && all[i] == c;
            if key_char(s.last()) {
                assert(part[i] == c);
            }
        }
    }
}

/// A citation key keeps every character of what its template rendered
/// except white space and the four characters `,` `{` `}` `%`: a
/// character is in the key exactly when it is in the rendered text and
/// is none of those; and there is no key exactly when every character
/// rendered is one of those.
pub proof fn citation_keys_drop_only_space_and_four_marks(rendered: Seq<char>)
    ensures
        match citation_key_spec(rendered) {
            Some(key) => forall|c: char|
                #![trigger key.contains(c)]
                #![trigger rendered.contains(c)]
                key.contains(c) <==> (rendered.contains(c) && !is_whitespace(c) && c != ','
                    && c != '{' && c != '}' && c != '%'),
            None => forall|c: char|
                rendered.contains(c) ==> (is_whitespace(c) || c == ',' || c == '{' || c == '}'
                    || c == '%'),
        },
{
    let key = key_text(rendered);
    assert forall|c: char|
        #![trigger key.contains(c)]
        #![trigger rendered.contains(c)]
        key.contains(c) <==> (rendered.contains(c) && !is_whitespace(c) && c != ',' && c != '{'
            && c != '}' && c != '%') by {
        lemma_key_text_contains(rendered, c);
    }
    if key.len() == 0 {
        assert forall|c: char| rendered.contains(c) implies (is_whitespace(c) || c == ',' || c
            == '{' || c == '}' || c == '%') by {
            lemma_key_text_contains(rendered, c);
            if key.contains(c) {
                let i = choose|i: int| 0 <= i < key.len() && key[i] == c;
            }
        }
    }
}

/// The citation key a record is cited under, given what its citation
/// key template rendered: stripped of white space and of the comma,
/// braces and percent sign; `None` when nothing is left.
pub fn citation_key(rendered: &str) -> (r: Option<String>)
    ensures
        crate::resolution::text_of(r) == citation_key_spec(rendered@),
        match r {
            Some(key) => forall|c: char|
                #![trigger key@.contains(c)]
                #![trigger rendered@.contains(c)]
                key@.contains(c) <==> (rendered@.contains(c) && !is_whitespace(c) && c != ','
                    && c != '{' && c != '}' && c != '%'),
            None => forall|c: char|
                rendered@.contains(c) ==> (is_whitespace(c) || c == ',' || c == '{' || c == '}'
                    || c == '%'),
        },
{
    proof {
        citation_keys_drop_only_space_and_four_marks(rendered@);
    }
    let n = rendered.unicode_len();
    let mut key = String::new();
    let mut i: usize = 0;
    assert(rendered@.take(0) =~= Seq::<char>::empty());
    while i < n
        invariant
            n == rendered@.len(),
            i <= n,
            key@ == key_text(rendered@.take(i as int)),
        decreases n - i,
    {
        let c = rendered.get_char(i);
        proof {
            assert(rendered@.take(i + 1).drop_last() =~= rendered@.take(i as int));
            assert(rendered@.take(i + 1).last() == c);
        }
        if !crate::text::whitespace(c) && c != ',' && c != '{' && c != '}' && c != '%' {
            crate::text::push_char(&mut key, c);
        }
        i = i + 1;
    }
    assert(rendered@.take(n as int) =~= rendered@);
    if key.unicode_len() == 0 {
        None
    } else {
        Some(key)
    }
}

/// Where the sidecar of the file at `path` goes: the same path with
/// `.bib` appended to its name, so `paper.pdf` yields `paper.pdf.bib`
/// and `paper` yields `paper.bib`; a path with no name gains one.
pub open spec fn sidecar_path_spec(path: Seq<char>) -> Seq<char> {
    if crate::paths::file_name_spec(path) is Some {
        path + ".bib"@
    } else {
        crate::paths::join_spec(path, ".bib"@)
    }
}

/// The sidecar path for the file at `path`.
///
/// Appended rather than substituted, so the sidecar namespace does not
/// collide with the name a person keeping notes on `paper.pdf` by hand
/// would have chosen.
pub fn sidecar_path(path: &str) -> (r: String)
    ensures
        r@ == sidecar_path_spec(path@),
{
    match crate::paths::file_name(path) {
        Some(_) => crate::text::concat2(path, ".bib"),
        None => crate::paths::join(path, ".bib"),
    }
}

/// Where bibliography output goes.
#[derive(Debug, Clone, PartialEq, Eq)]
pub struct BibConfig {
    /// The master `.bib` every entry is merged into, or `None` when the
    /// run keeps no master file.
    pub path: Option<String>,
    /// What to do when an entry for the same work is already there.
    pub duplicates: DuplicatePolicy,
    /// Whether to write a sidecar beside each resolved file.
    pub sidecars: bool,
}

/// Whether `event` reports bibliography output for `path` lost with
/// `message`.
pub open spec fn is_bib_failure(event: Event, path: Seq<char>, message: Seq<char>) -> bool {
    event matches Event::Skipped { path: p, reason: SkipReason::BibWriteFailed { message: m } }
        && p@ == path && m@ == message
}

/// The skip reporting bibliography output for `path` lost, with a
/// message naming the file that could not be read or written.
fn bib_failed(path: &str, message: String) -> (e: Event)
    ensures
        is_bib_failure(e, path@, message@),
{
    Event::Skipped {
        path: String::from_str(path),
        reason: SkipReason::BibWriteFailed { message },
    }
}

/// `"<doing> \"<target>\": <error>"`, the message of a lost read or
/// write.
pub open spec fn io_message(doing: Seq<char>, target: Seq<char>, error: Seq<char>) -> Seq<char> {
    doing + " \""@ + target + "\": "@ + error
}

fn io_failure(doing: &str, target: &str, error: &str) -> (r: String)
    ensures
        r@ == io_message(doing@, target@, error@),
{
    let mut r = crate::text::concat2(doing, " \"");
    r.append(target);
    r.append("\": ");
    r.append(error);
    r
}

/// Whether reading `target` through `read`, and asking `is_sidecar`
/// about what was read, can find the sidecar replaceable: nothing but
/// white space is there, or what is there carries a record in the form
/// borax writes. A target that cannot be read is not replaceable: not
/// knowing what is there is no reason to overwrite it.
pub open spec fn found_ours<R: Fn(String) -> Result<String, String>, S: Fn(String) -> bool>(
    read: R,
    is_sidecar: S,
    target: Seq<char>,
    ours: bool,
) -> bool {
    exists|t: String, got: Result<String, String>|
        t@ == target && #[trigger] call_ensures(read, (t,), got) && match got {
            Ok(text) => if is_blank(text@) {
                ours
            } else {
                call_ensures(is_sidecar, (text,), ours)
            },
            Err(_) => !ours,
        }
}

/// Whether `event` skips the file at `path` because `target` holds
/// something borax did not write.
pub open spec fn is_taken(event: Event, path: Seq<char>, target: Seq<char>) -> bool {
    event matches Event::Skipped { path: p, reason: SkipReason::SidecarTaken { target: t } }
        && p@ == path && t@ == target
}

/// Whether `event` reports the sidecar of the file at `path` written to
/// `target`.
pub open spec fn is_sidecar_written(event: Event, path: Seq<char>, target: Seq<char>) -> bool {
    event matches Event::Sidecar { path: p, target: t } && p@ == path && t@ == target
}

/// Whether `event` is what writing the sidecar of the file at `path`,
/// cited under `key`, can report when the sidecar goes to `target`:
/// taken when what is there is not borax's, written, or lost with the
/// writer's error.
pub open spec fn sidecar_event_ok<
    R: Fn(String) -> Result<String, String>,
    S: Fn(String) -> bool,
    W: Fn(String, String) -> Result<(), String>,
>(read: R, is_sidecar: S, write: W, path: Seq<char>, key: Seq<char>, target: Seq<char>, event: Event) -> bool {
    ||| found_ours(read, is_sidecar, target, false) && is_taken(event, path, target)
    ||| found_ours(read, is_sidecar, target, true) && is_sidecar_written(event, path, target)
        && exists|a: String, b: String|
        a@ == target && b@ == key && #[trigger] call_ensures(write, (a, b), Ok::<(), String>(()))
    ||| found_ours(read, is_sidecar, target, true) && exists|a: String, b: String, e: String|
        a@ == target && b@ == key && #[trigger] call_ensures(write, (a, b), Err::<(), String>(e))
            && is_bib_failure(event, path, io_message("writing"@, target, e@))
}

/// Write the sidecar for the resolved file at `path`, whose citation key
/// template rendered `rendered`, and answer the key it is cited under.
///
/// `path` is where the file is now: where the sidecar goes and what the
/// events name. A record that renders no key is skipped as unciteable
/// and has no place in either destination. A sidecar is written only
/// when `config` asks for sidecars: `read` reads what is at its target,
/// `is_sidecar` says whether that carries a record the way borax writes
/// one, and `write` writes the sidecar of the file's record under the
/// key to the target. One that would overwrite something borax did not
/// write is skipped as taken, and one the filesystem refuses is lost;
/// the key comes back regardless, since the master file is a separate
/// destination.
pub fn write_sidecar<R, S, W>(
    path: &str,
    rendered: &str,
    config: &BibConfig,
    read: &R,
    is_sidecar: &S,
    write: &W,
) -> (r: (Option<String>, Option<Event>)) where
    R: Fn(String) -> Result<String, String>,
    S: Fn(String) -> bool,
    W: Fn(String, String) -> Result<(), String>,

    requires
        forall|p: String| call_requires(*read, (p,)),
        forall|t: String| call_requires(*is_sidecar, (t,)),
        forall|p: String, k: String| call_requires(*write, (p, k)),
    ensures
        crate::resolution::text_of(r.0) == citation_key_spec(rendered@),
        match citation_key_spec(rendered@) {
            None => r.1 matches Some(Event::Skipped { path: p, reason: SkipReason::Unciteable })
                && p@ == path@,
            Some(key) => if !config.sidecars {
                r.1 is None
            } else {
                r.1 matches Some(event) && sidecar_event_ok(
                    *read,
                    *is_sidecar,
                    *write,
                    path@,
                    key,
                    sidecar_path_spec(path@),
                    event,
                )
            },
        },
{
    let key = match citation_key(rendered) {
        Some(key) => key,
        None => {
            return (
                None,
                Some(Event::Skipped { path: String::from_str(path), reason: SkipReason::Unciteable }),
            );
        },
    };
    if !config.sidecars {
        return (Some(key), None);
    }
    let target = sidecar_path(path);
    let asked = target.clone();
    let ghost asked_about = asked;
    let got = read(asked);
    assert(call_ensures(*read, (asked_about,), got));
    let ours = match &got {
        Ok(text) => {
            if crate::text::blank(text.as_str()) {
                true
            } else {
                let copy = text.clone();
                let answer = is_sidecar(copy);
                assert(call_ensures(*is_sidecar, (*text,), answer));
                answer
            }
        },
        Err(_) => false,
    };
    assert(found_ours(*read, *is_sidecar, target@, ours));
    let event = if !ours {
        Event::Skipped {
            path: String::from_str(path),
            reason: SkipReason::SidecarTaken { target },
        }
    } else {
        let a = target.clone();
        let b = key.clone();
        let ghost (ga, gb) = (a, b);
        let written = write(a, b);
        assert(call_ensures(*write, (ga, gb), written));
        match written {
            Ok(unit) => {
                assert(written == Ok::<(), String>(unit));
                assert(unit == ());
                Event::Sidecar { path: String::from_str(path), target }
            },
            Err(error) => {
                let ghost ge = error;
                assert(call_ensures(*write, (ga, gb), Err::<(), String>(ge)));
                bib_failed(path, io_failure("writing", target.as_str(), error.as_str()))
            },
        }
    };
    (Some(key), Some(event))
}

/// What the master-file merge did with one addition.
#[derive(Debug, Clone, PartialEq, Eq)]
pub enum MergeOutcome {
    /// Added under `key`.
    Added { key: String },
    /// An entry for the same work was there already, under
    /// `existing_key`, and was left alone.
    AlreadyPresent { existing_key: String },
    /// An entry for the same work was replaced, now under `key`.
    Updated { key: String },
}

/// One resolved file that has a citation key, and so a place in the
/// master `.bib`.
#[derive(Debug, Clone, PartialEq, Eq)]
pub struct Keyed {
    /// Where the file is, which is what the events about it name.
    pub path: String,
    /// The key the record is cited under.
    pub key: String,
}

/// Whether `event` reports what the merge did with the addition for
/// the file at `path`: the key the entry ends up cited under, and
/// `added`, `already-present` or `updated`.
pub open spec fn is_entry_event(event: Event, path: Seq<char>, outcome: MergeOutcome) -> bool {
    event matches Event::BibEntry { path: p, key: k, outcome: o } && p@ == path && match outcome {
        MergeOutcome::Added { key } => k@ == key@ && o@ == "added"@,
        MergeOutcome::AlreadyPresent { existing_key } => k@ == existing_key@ && o@
            == "already-present"@,
        MergeOutcome::Updated { key } => k@ == key@ && o@ == "updated"@,
    }
}

/// The event reporting what the merge did with one addition.
fn entry_event(path: &str, outcome: &MergeOutcome) -> (e: Event)
    ensures
        is_entry_event(e, path@, *outcome),
{
    let (key, name) = match outcome {
        MergeOutcome::Added { key } => (key.clone(), "added"),
        MergeOutcome::AlreadyPresent { existing_key } => (existing_key.clone(), "already-present"),
        MergeOutcome::Updated { key } => (key.clone(), "updated"),
    };
    Event::BibEntry { path: String::from_str(path), key, outcome: String::from_str(name) }
}

/// Whether `events` report, one for each of `keyed` in order, the loss
/// of its bibliography output with `message`.
pub open spec fn all_failed(events: Seq<Event>, keyed: Seq<Keyed>, message: Seq<char>) -> bool {
    &&& events.len() == keyed.len()
    &&& forall|i: int|
        0 <= i < events.len() ==> is_bib_failure(#[trigger] events[i], keyed[i].path@, message)
}

/// Whether `events` report, in order, what the merge did with each of
/// `keyed`, as far as there are outcomes for them.
pub open spec fn all_merged(events: Seq<Event>, keyed: Seq<Keyed>, outcomes: Seq<MergeOutcome>) -> bool {
    &&& events.len() == if keyed.len() <= outcomes.len() {
        keyed.len()
    } else {
        outcomes.len()
    }
    &&& forall|i: int|
        0 <= i < events.len() ==> is_entry_event(#[trigger] events[i], keyed[i].path@, outcomes[i])
}

/// A lost entry for each of `keyed`, every one carrying `message`.
fn failed_for(keyed: &Vec<Keyed>, message: &str) -> (r: Vec<Event>)
    ensures
        all_failed(r@, keyed@, message@),
{
    let mut r: Vec<Event> = Vec::new();
    let mut i: usize = 0;
    while i < keyed.len()
        invariant
            i <= keyed@.len(),
            r@.len() == i,
            forall|j: int| 0 <= j < i ==> is_bib_failure(#[trigger] r@[j], keyed@[j].path@, message@),
        decreases keyed@.len() - i,
    {
        r.push(bib_failed(keyed[i].path.as_str(), String::from_str(message)));
        i = i + 1;
    }
    r
}

/// Whether `events` are what merging `keyed` into the master file at
/// `master` can report: every entry lost with the reader's error; or the
/// merge of what was read, written back, each entry's outcome; or the
/// merge written back in vain, every entry lost with the writer's
/// error.
pub open spec fn merge_events_ok<
    R: Fn(String) -> Result<String, String>,
    M: Fn(String) -> (String, Vec<MergeOutcome>),
    W: Fn(String, String) -> Result<(), String>,
>(read: R, merge: M, write: W, master: Seq<char>, keyed: Seq<Keyed>, events: Seq<Event>) -> bool {
    ||| exists|t: String, e: String|
        t@ == master && #[trigger] call_ensures(read, (t,), Err::<String, String>(e)) && all_failed(
            events,
            keyed,
            io_message("reading"@, master, e@),
        )
    ||| exists|t: String, existing: String, merged: (String, Vec<MergeOutcome>), a: String|
        #![trigger call_ensures(read, (t,), Ok::<String, String>(existing)), call_ensures(merge, (existing,), merged), a@]
        t@ == master && call_ensures(read, (t,), Ok::<String, String>(existing))
            && call_ensures(merge, (existing,), merged) && a@ == master && {
            ||| call_ensures(write, (a, merged.0), Ok::<(), String>(())) && all_merged(
                events,
                keyed,
                merged.1@,
            )
            ||| exists|e: String|
                #[trigger] call_ensures(write, (a, merged.0), Err::<(), String>(e)) && all_failed(
                    events,
                    keyed,
                    io_message("writing"@, master, e@),
                )
        }
}

/// Merge `keyed` into the master `.bib` and report what became of each
/// entry.
///
/// Nothing is read or written when `config` names no master file, and
/// nothing when `keyed` is empty. Otherwise `read` reads the master
/// file, `merge` merges every entry into what was read in one pass and
/// answers the new content with one outcome per entry, and `write`
/// writes the content back. Each entry is reported in `keyed`'s order;
/// a read or a write that fails loses every entry it cost, naming the
/// master file, and no entry is reported twice.
pub fn merge_master<R, M, W>(
    keyed: &Vec<Keyed>,
    config: &BibConfig,
    read: &R,
    merge: &M,
    write: &W,
) -> (r: Vec<Event>) where
    R: Fn(String) -> Result<String, String>,
    M: Fn(String) -> (String, Vec<MergeOutcome>),
    W: Fn(String, String) -> Result<(), String>,

    requires
        forall|p: String| call_requires(*read, (p,)),
        forall|t: String| call_requires(*merge, (t,)),
        forall|p: String, c: String| call_requires(*write, (p, c)),
    ensures
        match config.path {
            None => r@.len() == 0,
            Some(master) => if keyed@.len() == 0 {
                r@.len() == 0
            } else {
                merge_events_ok(*read, *merge, *write, master@, keyed@, r@)
            },
        },
{
    let master = match &config.path {
        Some(master) => master,
        None => return Vec::new(),
    };
    if keyed.len() == 0 {
        return Vec::new();
    }
    let asked = master.clone();
    let ghost gt = asked;
    let got = read(asked);
    assert(call_ensures(*read, (gt,), got));
    let existing = match got {
        Ok(existing) => existing,
        Err(error) => {
            let ghost ge = error;
            assert(call_ensures(*read, (gt,), Err::<String, String>(ge)));
            return failed_for(keyed, io_failure("reading", master.as_str(), error.as_str()).as_str());
        },
    };
    let ghost gx = existing;
    assert(call_ensures(*read, (gt,), Ok::<String, String>(gx)));
    let merged = merge(existing);
    let ghost gm = merged;
    assert(call_ensures(*merge, (gx,), gm));
    let (content, outcomes) = merged;
    let target = master.clone();
    let ghost ga = target;
    let written = write(target, content);
    assert(call_ensures(*write, (ga, gm.0), written));
    match written {
        Ok(unit) => {
            assert(written == Ok::<(), String>(unit));
            assert(unit == ());
            let mut r: Vec<Event> = Vec::new();
            let mut i: usize = 0;
            while i < keyed.len() && i < outcomes.len()
                invariant
                    i <= keyed@.len(),
                    i <= outcomes@.len(),
                    r@.len() == i,
                    forall|j: int|
                        0 <= j < i ==> is_entry_event(
                            #[trigger] r@[j],
                            keyed@[j].path@,
                            outcomes@[j],
                        ),
                decreases keyed@.len() - i,
            {
                r.push(entry_event(keyed[i].path.as_str(), &outcomes[i]));
                i = i + 1;
            }
            assert(all_merged(r@, keyed@, gm.1@));
            r
        },
        Err(error) => {
            let ghost ge = error;
            assert(call_ensures(*write, (ga, gm.0), Err::<(), String>(ge)));
            failed_for(keyed, io_failure("writing", master.as_str(), error.as_str()).as_str())
        },
    }
}

/// A master file that cannot be read costs every entry its place: when
/// reading it answers `error`, whatever the merge and the writer would
/// have done, each of `keyed` is reported lost, in order, with the
/// reader's error and the master file named.
pub proof fn unreadable_master_loses_every_entry<
    R: Fn(String) -> Result<String, String>,
    M: Fn(String) -> (String, Vec<MergeOutcome>),
    W: Fn(String, String) -> Result<(), String>,
>(
    read: R,
    merge: M,
    write: W,
    master: Seq<char>,
    keyed: Seq<Keyed>,
    error: String,
    events: Seq<Event>,
)
    requires
        forall|t: String, got: Result<String, String>|
            t@ == master && #[trigger] call_ensures(read, (t,), got) ==> got == Err::<String, String>(
                error,
            ),
        merge_events_ok(read, merge, write, master, keyed, events),
    ensures
        events.len() == keyed.len(),
        forall|i: int|
            0 <= i < events.len() ==> is_bib_failure(
                #[trigger] events[i],
                keyed[i].path@,
                io_message("reading"@, master, error@),
            ),
{
    if exists|t: String, e: String|
        t@ == master && #[trigger] call_ensures(read, (t,), Err::<String, String>(e)) && all_failed(
            events,
            keyed,
            io_message("reading"@, master, e@),
        ) {
        let (t, e) = choose|t: String, e: String|
            t@ == master && #[trigger] call_ensures(read, (t,), Err::<String, String>(e))
                && all_failed(events, keyed, io_message("reading"@, master, e@));
        assert(Err::<String, String>(e) == Err::<String, String>(error));
    } else {
        let (t, existing, merged, a) = choose|
            t: String,
            existing: String,
            merged: (String, Vec<MergeOutcome>),
            a: String,
        |
            #![trigger call_ensures(read, (t,), Ok::<String, String>(existing)), call_ensures(merge, (existing,), merged), a@]
            t@ == master && call_ensures(read, (t,), Ok::<String, String>(existing))
                && call_ensures(merge, (existing,), merged) && a@ == master && {
                ||| call_ensures(write, (a, merged.0), Ok::<(), String>(())) && all_merged(
                    events,
                    keyed,
                    merged.1@,
                )
                ||| exists|e: String|
                    #[trigger] call_ensures(write, (a, merged.0), Err::<(), String>(e)) && all_failed(
                        events,
                        keyed,
                        io_message("writing"@, master, e@),
                    )
            };
        assert(call_ensures(read, (t,), Ok::<String, String>(existing)));
        assert(false);
    }
}

/// A sidecar target holding something borax did not write is never
/// overwritten: when reading it fails, or gives text that is not blank
/// and carries no record the way borax writes one, the file is skipped
/// as taken, whatever the writer would have done.
pub proof fn a_foreign_sidecar_is_left_alone<
    R: Fn(String) -> Result<String, String>,
    S: Fn(String) -> bool,
    W: Fn(String, String) -> Result<(), String>,
>(
    read: R,
    is_sidecar: S,
    write: W,
    path: Seq<char>,
    key: Seq<char>,
    target: Seq<char>,
    event: Event,
)
    requires
        forall|t: String, got: Result<String, String>|
            t@ == target && #[trigger] call_ensures(read, (t,), got) ==> match got {
                Ok(text) => !is_blank(text@) && forall|b: bool|
                    #[trigger] call_ensures(is_sidecar, (text,), b) ==> !b,
                Err(_) => true,
            },
        sidecar_event_ok(read, is_sidecar, write, path, key, target, event),
    ensures
        is_taken(event, path, target),
{
    if found_ours(read, is_sidecar, target, true) {
        let (t, got) = choose|t: String, got: Result<String, String>|
            t@ == target && #[trigger] call_ensures(read, (t,), got) && match got {
                Ok(text) => if is_blank(text@) {
                    true
                } else {
                    call_ensures(is_sidecar, (text,), true)
                },
                Err(_) => !true,
            };
        assert(call_ensures(read, (t,), got));
    }
}

/// Whether `out` is what [`write_sidecar`] answers for the file at
/// `path` whose citation key template rendered `rendered`: the key, and
/// the event its sidecar is reported with, if any.
pub open spec fn sidecar_ok<
    R: Fn(String) -> Result<String, String>,
    S: Fn(String) -> bool,
    W: Fn(String, String) -> Result<(), String>,
>(
    read: R,
    is_sidecar: S,
    write: W,
    config: BibConfig,
    path: Seq<char>,
    rendered: Seq<char>,
    out: (Option<String>, Option<Event>),
) -> bool {
    &&& crate::resolution::text_of(out.0) == citation_key_spec(rendered)
    &&& match citation_key_spec(rendered) {
        None => out.1 matches Some(Event::Skipped { path: p, reason: SkipReason::Unciteable })
            && p@ == path,
        Some(key) => if !config.sidecars {
            out.1 is None
        } else {
            out.1 matches Some(event) && sidecar_event_ok(
                read,
                is_sidecar,
                write,
                path,
                key,
                sidecar_path_spec(path),
                event,
            )
        },
    }
}

/// Whether `events` are what [`merge_master`] reports for `keyed`.
pub open spec fn master_ok<
    R: Fn(String) -> Result<String, String>,
    M: Fn(String) -> (String, Vec<MergeOutcome>),
    W: Fn(String, String) -> Result<(), String>,
>(read: R, merge: M, write: W, config: BibConfig, keyed: Seq<Keyed>, events: Seq<Event>) -> bool {
    match config.path {
        None => events.len() == 0,
        Some(master) => if keyed.len() == 0 {
            events.len() == 0
        } else {
            merge_events_ok(read, merge, write, master@, keyed, events)
        },
    }
}

/// The events of `outs` that there are, in order.
pub open spec fn present(outs: Seq<Option<Event>>) -> Seq<Event>
    decreases outs.len(),
{
    if outs.len() == 0 {
        Seq::empty()
    } else {
        let rest = present(outs.drop_last());
        match outs.last() {
            Some(event) => rest.push(event),
            None => rest,
        }
    }
}

/// Whether `keyed` lists, in order, each file of `paths` that has a key
/// in `keys`, with that key.
pub open spec fn lists_keyed(paths: Seq<String>, keys: Seq<Option<String>>, keyed: Seq<Keyed>) -> bool
    decreases paths.len(),
{
    if paths.len() == 0 {
        keyed.len() == 0
    } else {
        match keys.last() {
            Some(key) => keyed.len() > 0 && keyed.last().path@ == paths.last()@
                && keyed.last().key@ == key@ && lists_keyed(
                paths.drop_last(),
                keys.drop_last(),
                keyed.drop_last(),
            ),
            None => lists_keyed(paths.drop_last(), keys.drop_last(), keyed),
        }
    }
}

/// The paths of `resolved`, in order.
pub open spec fn paths_of(resolved: Seq<(String, String)>) -> Seq<String> {
    resolved.map_values(|f: (String, String)| f.0)
}

/// The keys [`write_sidecar`] answered, in order.
pub open spec fn keys_of(outs: Seq<(Option<String>, Option<Event>)>) -> Seq<Option<String>> {
    outs.map_values(|o: (Option<String>, Option<Event>)| o.0)
}

/// The sidecar events of `outs` that there are, in order.
pub open spec fn sidecar_events(outs: Seq<(Option<String>, Option<Event>)>) -> Seq<Event> {
    present(outs.map_values(|o: (Option<String>, Option<Event>)| o.1))
}

/// Write bibliography output for `resolved`, each a file's path and
/// what its citation key template rendered.
///
/// [`write_sidecar`] per file in the order given, then [`merge_master`]
/// over every file that had a citation key, so a caller doing the two
/// halves itself writes the same files and reports the same outcomes.
/// The events come in a fixed order: every sidecar event in input
/// order, then every master-file event in input order.
pub fn write_bib<R, S, W, M, V>(
    resolved: &Vec<(String, String)>,
    config: &BibConfig,
    read: &R,
    is_sidecar: &S,
    write_sidecar_of: &W,
    merge: &M,
    write_master: &V,
) -> (r: Vec<Event>) where
    R: Fn(String) -> Result<String, String>,
    S: Fn(String) -> bool,
    W: Fn(String, String) -> Result<(), String>,
    M: Fn(String) -> (String, Vec<MergeOutcome>),
    V: Fn(String, String) -> Result<(), String>,

    requires
        forall|p: String| call_requires(*read, (p,)),
        forall|t: String| call_requires(*is_sidecar, (t,)),
        forall|p: String, k: String| call_requires(*write_sidecar_of, (p, k)),
        forall|t: String| call_requires(*merge, (t,)),
        forall|p: String, c: String| call_requires(*write_master, (p, c)),
    ensures
        exists|outs: Seq<(Option<String>, Option<Event>)>, keyed: Seq<Keyed>, merged: Seq<Event>|
            #![trigger sidecar_events(outs), master_ok(*read, *merge, *write_master, *config, keyed, merged)]
            {
                &&& outs.len() == resolved@.len()
                &&& forall|i: int|
                    0 <= i < outs.len() ==> sidecar_ok(
                        *read,
                        *is_sidecar,
                        *write_sidecar_of,
                        *config,
                        resolved@[i].0@,
                        resolved@[i].1@,
                        #[trigger] outs[i],
                    )
                &&& lists_keyed(paths_of(resolved@), keys_of(outs), keyed)
                &&& master_ok(*read, *merge, *write_master, *config, keyed, merged)
                &&& r@ == sidecar_events(outs) + merged
            },
{
    let mut events: Vec<Event> = Vec::new();
    let mut keyed: Vec<Keyed> = Vec::new();
    let ghost mut outs: Seq<(Option<String>, Option<Event>)> = Seq::empty();
    let mut i: usize = 0;
    while i < resolved.len()
        invariant
            i <= resolved@.len(),
            outs.len() == i,
            forall|p: String| call_requires(*read, (p,)),
            forall|t: String| call_requires(*is_sidecar, (t,)),
            forall|p: String, k: String| call_requires(*write_sidecar_of, (p, k)),
            forall|j: int|
                0 <= j < i ==> sidecar_ok(
                    *read,
                    *is_sidecar,
                    *write_sidecar_of,
                    *config,
                    resolved@[j].0@,
                    resolved@[j].1@,
                    #[trigger] outs[j],
                ),
            lists_keyed(paths_of(resolved@.take(i as int)), keys_of(outs), keyed@),
            events@ == sidecar_events(outs),
        decreases resolved@.len() - i,
    {
        let (path, rendered) = &resolved[i];
        let out = write_sidecar(path.as_str(), rendered.as_str(), config, read, is_sidecar, write_sidecar_of);
        let ghost before = outs;
        let ghost next = outs.push(out);
        proof {
            let f = |f: (String, String)| f.0;
            let k = |o: (Option<String>, Option<Event>)| o.0;
            let e = |o: (Option<String>, Option<Event>)| o.1;
            assert(resolved@.take(i + 1).map_values(f).drop_last() =~= resolved@.take(i as int).map_values(f));
            assert(resolved@.take(i + 1).map_values(f).last() == path);
            assert(next.map_values(k).drop_last() =~= before.map_values(k));
            assert(next.map_values(k).last() == out.0);
            assert(next.map_values(e).drop_last() =~= before.map_values(e));
            assert(next.map_values(e).last() == out.1);
        }
        let (key, event) = out;
        match event {
            Some(event) => events.push(event),
            None => {},
        }
        match key {
            Some(key) => {
                let ghost was = keyed@;
                keyed.push(Keyed { path: path.clone(), key });
                assert(keyed@.drop_last() =~= was);
            },
            None => {},
        }
        proof {
            outs = next;
        }
        i = i + 1;
    }
    assert(resolved@.take(resolved@.len() as int) =~= resolved@);
    let ghost sidecars = events@;
    let mut merged = merge_master(&keyed, config, read, merge, write_master);
    let ghost tail = merged@;
    events.append(&mut merged);
    assert(master_ok(*read, *merge, *write_master, *config, keyed@, tail));
    assert(events@ == sidecars + tail);
    events
}

} // verus!
