//! What a run says about itself.
//!
//! A run produces one stream of events. The JSON rendering of it is the
//! serialised stream; the prose rendering is [`human_line`], which says
//! the same things for a person. Diagnostics are not events: they are
//! about the run rather than about a file, and go to stderr.

use vstd::prelude::*;
use crate::record::Record;
use crate::text::{decimal, decimal_spec, debug_quote, debug_text};

verus! {

/// The version of the event schema, emitted on every JSON line.
pub const SCHEMA: u32 = 1;

/// One source's answer during resolution.
#[derive(Debug, Clone, PartialEq, Eq)]
pub struct Attempt {
    pub source: String,
    pub error: String,
}

/// One external table a run read.
#[derive(Debug, Clone, PartialEq, Eq)]
pub struct TableUsed {
    /// The name templates address it by.
    pub name: String,
    /// The file it was read from, as the run resolved it.
    pub path: String,
    /// A digest of the bytes it was read with.
    pub digest: String,
}

/// Why the collection already holds a file.
#[derive(Debug, Clone, Copy, PartialEq, Eq, Structural)]
pub enum DuplicateReason {
    /// The same bytes.
    Content,
    /// The same work, in a different file.
    Work,
}

/// Why a file was left alone.
#[derive(Debug, Clone, PartialEq, Eq)]
pub enum SkipReason {
    /// Neither extraction pass found an identifier in the file.
    NoIdentifier,
    /// An identifier was found but no source holds it.
    Unresolvable { attempts: Vec<Attempt> },
    /// The file's own metadata disagrees with the resolved record.
    /// `similarity` is how close the two were, as a whole percentage.
    Conflict { field: String, extracted: String, resolved: String, similarity: u64 },
    /// The name the template produced is taken and the policy is to skip.
    TargetTaken { target: String },
    /// The file already carries the name the template produced.
    AlreadyNamed,
    /// The file could not be read as a PDF at all.
    Unreadable { message: String },
    /// The template rendered an empty name from the record.
    Unnameable,
    /// The rename itself failed.
    RenameFailed { message: String },
    /// Bibliography output for the file could not be written.
    BibWriteFailed { message: String },
    /// The template rendered nothing a citation key can be made of.
    Unciteable,
    /// Something borax did not write sits where the sidecar would go.
    SidecarTaken { target: String },
    /// The move could not be recorded identifiably, so it was not made.
    Unrecordable { message: String },
    /// The collection has already admitted this file.
    Duplicate { reason: DuplicateReason, existing_path: String },
    /// Nothing is at the recorded new path any more.
    Missing,
    /// Something is at the recorded new path, but not what was moved there.
    ContentChanged,
    /// The original path is occupied, so moving back would overwrite.
    OriginalTaken,
}

/// What the run did, in totals.
#[derive(Debug, Clone, Copy, Default, PartialEq, Eq, Structural)]
pub struct Counts {
    pub resolved: usize,
    pub renamed: usize,
    pub skipped: usize,
    /// Distinct lookups that found no row.
    pub unmatched: usize,
}

/// Something that happened to a file, or to the run as a whole.
#[derive(Debug, Clone, PartialEq, Eq)]
pub enum Event {
    /// The run is starting.
    RunStarted { command: String, version: String, applying: bool, tables: Vec<TableUsed> },
    /// A lookup found no row.
    LookupMissed { table: String, input: String },
    /// A file's identifier was found and a record fetched for it.
    Resolved {
        path: String,
        identifier: String,
        record: Record,
        source: String,
        tier: Option<String>,
        cached: bool,
    },
    /// A rename that would happen.
    Planned { path: String, target: String },
    /// A rename that did happen, with the content hash of the file moved.
    Renamed { path: String, target: String, hash: String },
    /// A recorded rename that was moved back: from `path`, where the run
    /// had put the file, to `target`, where it started.
    Reverted { path: String, target: String },
    /// A file the run declined to act on, and why.
    Skipped { path: String, reason: SkipReason },
    /// An entry written to the master bibliography.
    BibEntry { path: String, key: String, outcome: String },
    /// A sidecar written beside a resolved file.
    Sidecar { path: String, target: String },
    /// One setting of the effective configuration.
    ConfigSetting { key: String, value: String, origin: String },
    /// What the response cache holds.
    CacheStatus { root: String, entries: usize, bytes: u64 },
    /// What clearing the response cache removed.
    CacheCleared { root: String, entries: usize, bytes: u64 },
    /// The collection's ledger was regenerated from what is on disk.
    LedgerRebuilt { root: String, entries: usize },
    /// The run is over.
    RunFinished { counts: Counts },
}

/// The totals after `event` is folded into `counts`: one more resolved,
/// renamed, skipped or unmatched for the four events that are about
/// files and lookups, and no change for any other.
pub open spec fn observed(counts: Counts, event: Event) -> Counts {
    match event {
        Event::Resolved { .. } => Counts { resolved: (counts.resolved + 1) as usize, ..counts },
        Event::Renamed { .. } => Counts { renamed: (counts.renamed + 1) as usize, ..counts },
        Event::Skipped { .. } => Counts { skipped: (counts.skipped + 1) as usize, ..counts },
        Event::LookupMissed { .. } => Counts { unmatched: (counts.unmatched + 1) as usize, ..counts },
        _ => counts,
    }
}

/// Whether folding `event` into `counts` stays within `usize`.
pub open spec fn room_for(counts: Counts, event: Event) -> bool {
    match event {
        Event::Resolved { .. } => counts.resolved < usize::MAX,
        Event::Renamed { .. } => counts.renamed < usize::MAX,
        Event::Skipped { .. } => counts.skipped < usize::MAX,
        Event::LookupMissed { .. } => counts.unmatched < usize::MAX,
        _ => true,
    }
}

impl Counts {
    /// Fold `event` into the totals.
    ///
    /// Counts what happened, not what was planned: a planned rename is
    /// not a rename, and an event about the run rather than a file
    /// changes nothing.
    pub fn observe(&mut self, event: &Event)
        requires
            room_for(*old(self), *event),
        ensures
            *final(self) == observed(*old(self), *event),
    {
        match event {
            Event::Resolved { .. } => self.resolved = self.resolved + 1,
            Event::Renamed { .. } => self.renamed = self.renamed + 1,
            Event::Skipped { .. } => self.skipped = self.skipped + 1,
            Event::LookupMissed { .. } => self.unmatched = self.unmatched + 1,
            _ => {},
        }
    }
}

/// Which rendering of the event stream to write.
#[derive(Debug, Clone, Copy, PartialEq, Eq, Structural)]
pub enum Format {
    /// Prose for a person.
    Human,
    /// One JSON object per line.
    Json,
}

/// How much a diagnostic matters.
#[derive(Debug, Clone, Copy, PartialEq, Eq, Structural)]
pub enum Level {
    Warning,
    Error,
}

/// A message about the run rather than about a file.
#[derive(Debug, Clone, PartialEq, Eq)]
pub struct Diagnostic {
    pub level: Level,
    pub message: String,
}

/// `warning: <message>` or `error: <message>`.
pub open spec fn diagnostic_text(d: Diagnostic) -> Seq<char> {
    match d.level {
        Level::Warning => "warning: "@ + d.message@,
        Level::Error => "error: "@ + d.message@,
    }
}

impl Diagnostic {
    /// The diagnostic as it is written to stderr.
    pub fn text(&self) -> (r: String)
        ensures
            r@ == diagnostic_text(*self),
    {
        let mut r = match self.level {
            Level::Warning => String::from_str("warning: "),
            Level::Error => String::from_str("error: "),
        };
        r.append(self.message.as_str());
        r
    }
}

/// `source: error` for one attempt.
pub open spec fn attempt_text(a: Attempt) -> Seq<char> {
    a.source@ + ": "@ + a.error@
}

/// The attempts' texts separated by `; `.
pub open spec fn attempts_text(attempts: Seq<Attempt>) -> Seq<char>
    decreases attempts.len(),
{
    if attempts.len() == 0 {
        Seq::empty()
    } else if attempts.len() == 1 {
        attempt_text(attempts[0])
    } else {
        attempts_text(attempts.drop_last()) + "; "@ + attempt_text(attempts.last())
    }
}

/// The clause following `skipped,` in a human line.
pub open spec fn because_spec(reason: SkipReason) -> Seq<char> {
    match reason {
        SkipReason::NoIdentifier => "no identifier found"@,
        SkipReason::Unresolvable { attempts } => if attempts@.len() == 0 {
            "no source had a record"@
        } else {
            "no source had a record ("@ + attempts_text(attempts@) + ")"@
        },
        SkipReason::Conflict { field, extracted, resolved, similarity } => field@
            + " disagrees "@ + decimal_spec(similarity as nat) + "% (file says "@ + extracted@
            + ", record says "@ + resolved@ + ")"@,
        SkipReason::TargetTaken { target } => target@ + " is taken"@,
        SkipReason::AlreadyNamed => "already carries that name"@,
        SkipReason::Unreadable { message } => "unreadable ("@ + message@ + ")"@,
        SkipReason::Unnameable => "the record renders an empty name"@,
        SkipReason::RenameFailed { message } => "rename failed ("@ + message@ + ")"@,
        SkipReason::BibWriteFailed { message } => "bibliography output failed ("@ + message@
            + ")"@,
        SkipReason::Unciteable => "the record renders an empty citation key"@,
        SkipReason::SidecarTaken { target } => target@ + " exists and borax did not write it"@,
        SkipReason::Unrecordable { message } =>
            "the move could not be recorded, so it was not made ("@ + message@ + ")"@,
        SkipReason::Duplicate { reason, existing_path } => match reason {
            DuplicateReason::Content => "same bytes already archived at "@ + existing_path@,
            DuplicateReason::Work => "same work already archived at "@ + existing_path@
                + " (different file)"@,
        },
        SkipReason::Missing => "nothing is at the recorded path any more"@,
        SkipReason::ContentChanged => "what is there is not what was moved there"@,
        SkipReason::OriginalTaken => "the original name is taken"@,
    }
}

fn attempts_joined(attempts: &Vec<Attempt>) -> (r: String)
    ensures
        r@ == attempts_text(attempts@),
{
    let mut r = String::new();
    let mut i: usize = 0;
    while i < attempts.len()
        invariant
            i <= attempts@.len(),
            r@ == attempts_text(attempts@.take(i as int)),
        decreases attempts@.len() - i,
    {
        let a = &attempts[i];
        assert(attempts@.take(i + 1).drop_last() =~= attempts@.take(i as int));
        assert(attempts@.take(i + 1).last() == attempts@[i as int]);
        if i > 0 {
            r.append("; ");
        } else {
            assert(attempts@.take(1)[0] == attempts@[0]);
        }
        r.append(a.source.as_str());
        r.append(": ");
        r.append(a.error.as_str());
        i = i + 1;
    }
    assert(attempts@.take(attempts@.len() as int) =~= attempts@);
    r
}

fn three(a: &str, b: &str, c: &str) -> (r: String)
    ensures
        r@ == a@ + b@ + c@,
{
    let mut r = String::from_str(a);
    r.append(b);
    r.append(c);
    r
}

/// The clause following `skipped,` in a human line.
pub fn skipped_because(reason: &SkipReason) -> (r: String)
    ensures
        r@ == because_spec(*reason),
{
    match reason {
        SkipReason::NoIdentifier => String::from_str("no identifier found"),
        SkipReason::Unresolvable { attempts } => {
            if attempts.len() == 0 {
                String::from_str("no source had a record")
            } else {
                let said = attempts_joined(attempts);
                three("no source had a record (", said.as_str(), ")")
            }
        },
        SkipReason::Conflict { field, extracted, resolved, similarity } => {
            let mut r = String::from_str(field.as_str());
            r.append(" disagrees ");
            r.append(decimal(*similarity).as_str());
            r.append("% (file says ");
            r.append(extracted.as_str());
            r.append(", record says ");
            r.append(resolved.as_str());
            r.append(")");
            r
        },
        SkipReason::TargetTaken { target } => {
            let mut r = String::from_str(target.as_str());
            r.append(" is taken");
            r
        },
        SkipReason::AlreadyNamed => String::from_str("already carries that name"),
        SkipReason::Unreadable { message } => three("unreadable (", message.as_str(), ")"),
        SkipReason::Unnameable => String::from_str("the record renders an empty name"),
        SkipReason::RenameFailed { message } => three("rename failed (", message.as_str(), ")"),
        SkipReason::BibWriteFailed { message } => three(
            "bibliography output failed (",
            message.as_str(),
            ")",
        ),
        SkipReason::Unciteable => String::from_str("the record renders an empty citation key"),
        SkipReason::SidecarTaken { target } => {
            let mut r = String::from_str(target.as_str());
            r.append(" exists and borax did not write it");
            r
        },
        SkipReason::Unrecordable { message } => three(
            "the move could not be recorded, so it was not made (",
            message.as_str(),
            ")",
        ),
        SkipReason::Duplicate { reason, existing_path } => match reason {
            DuplicateReason::Content => {
                let mut r = String::from_str("same bytes already archived at ");
                r.append(existing_path.as_str());
                r
            },
            DuplicateReason::Work => three(
                "same work already archived at ",
                existing_path.as_str(),
                " (different file)",
            ),
        },
        SkipReason::Missing => String::from_str("nothing is at the recorded path any more"),
        SkipReason::ContentChanged => String::from_str("what is there is not what was moved there"),
        SkipReason::OriginalTaken => String::from_str("the original name is taken"),
    }
}

/// `, <n> unmatched` when `n` is not zero, and nothing when it is.
pub open spec fn unmatched_spec(n: usize) -> Seq<char> {
    if n == 0 {
        Seq::empty()
    } else {
        ", "@ + decimal_spec(n as nat) + " unmatched"@
    }
}

/// `event` as a line of prose, or `None` for [`Event::RunStarted`], the
/// one event not worth saying aloud.
pub open spec fn human_spec(event: Event) -> Option<Seq<char>> {
    match event {
        Event::RunStarted { .. } => None,
        Event::Resolved { path, identifier, source, cached, .. } => Some(
            path@ + ": resolved "@ + identifier@ + " via "@ + source@ + (if cached {
                " (cached)"@
            } else {
                Seq::empty()
            }),
        ),
        Event::Planned { path, target } => Some(path@ + ": would rename to "@ + target@),
        Event::Renamed { path, target, .. } => Some(path@ + ": renamed to "@ + target@),
        Event::Reverted { path, target } => Some(path@ + ": moved back to "@ + target@),
        Event::Skipped { path, reason } => Some(path@ + ": skipped, "@ + because_spec(reason)),
        Event::BibEntry { path, key, outcome } => Some(
            path@ + ": bibliography entry "@ + key@ + " "@ + outcome@,
        ),
        Event::Sidecar { path, target } => Some(path@ + ": sidecar written to "@ + target@),
        Event::ConfigSetting { key, value, origin } => Some(
            key@ + " = "@ + value@ + "  # "@ + origin@,
        ),
        Event::CacheStatus { root, entries, bytes } => Some(
            root@ + ": "@ + decimal_spec(entries as nat) + " entries, "@ + decimal_spec(
                bytes as nat,
            ) + " bytes"@,
        ),
        Event::CacheCleared { root, entries, bytes } => Some(
            root@ + ": cleared "@ + decimal_spec(entries as nat) + " entries, "@ + decimal_spec(
                bytes as nat,
            ) + " bytes"@,
        ),
        Event::LookupMissed { table, input } => Some(
            table@ + ": no row for "@ + debug_text(input@),
        ),
        Event::LedgerRebuilt { root, entries } => Some(
            root@ + ": rebuilt with "@ + decimal_spec(entries as nat) + " entries"@,
        ),
        Event::RunFinished { counts } => Some(
            decimal_spec(counts.resolved as nat) + " resolved, "@ + decimal_spec(
                counts.renamed as nat,
            ) + " renamed, "@ + decimal_spec(counts.skipped as nat) + " skipped"@
                + unmatched_spec(counts.unmatched),
        ),
    }
}

fn path_and(path: &String, middle: &str, last: &str) -> (r: String)
    ensures
        r@ == path@ + middle@ + last@,
{
    let mut r = path.clone();
    r.append(middle);
    r.append(last);
    r
}

/// The file an event is about, for the events about one file.
pub open spec fn file_of(event: Event) -> Option<Seq<char>> {
    match event {
        Event::Resolved { path, .. } => Some(path@),
        Event::Planned { path, .. } => Some(path@),
        Event::Renamed { path, .. } => Some(path@),
        Event::Reverted { path, .. } => Some(path@),
        Event::Skipped { path, .. } => Some(path@),
        Event::BibEntry { path, .. } => Some(path@),
        Event::Sidecar { path, .. } => Some(path@),
        _ => None,
    }
}

/// Where an event puts something: the new name of a move, planned, made
/// or undone, and where a sidecar went.
pub open spec fn destination_of(event: Event) -> Option<Seq<char>> {
    match event {
        Event::Planned { target, .. } => Some(target@),
        Event::Renamed { target, .. } => Some(target@),
        Event::Reverted { target, .. } => Some(target@),
        Event::Sidecar { target, .. } => Some(target@),
        _ => None,
    }
}

/// Whether `line` ends with `suffix`.
pub open spec fn ends_with(line: Seq<char>, suffix: Seq<char>) -> bool {
    suffix.len() <= line.len() && line.skip(line.len() - suffix.len()) == suffix
}

/// A line about one file begins with that file and a colon, and a line
/// about a move or a sidecar ends with where the file or sidecar goes:
/// a move reads from the file's old name to its new one. A rename that
/// happened reads exactly as the one planned for the same move, with
/// `renamed to` for `would rename to`.
pub proof fn file_lines_read_from_the_file_to_where_it_goes(event: Event)
    ensures
        file_of(event) matches Some(p) ==> human_spec(event) matches Some(line)
            && crate::text::starts_with(line, p + ": "@),
        destination_of(event) matches Some(t) ==> human_spec(event) matches Some(line) && ends_with(
            line,
            t,
        ),
        event matches Event::Renamed { path, target, .. } ==> human_spec(event) == Some(
            path@ + ": renamed to "@ + target@,
        ),
        event matches Event::Planned { path, target } ==> human_spec(event) == Some(
            path@ + ": would rename to "@ + target@,
        ),
{
    reveal_strlit(": ");
    reveal_strlit(": resolved ");
    reveal_strlit(": would rename to ");
    reveal_strlit(": renamed to ");
    reveal_strlit(": moved back to ");
    reveal_strlit(": skipped, ");
    reveal_strlit(": bibliography entry ");
    reveal_strlit(": sidecar written to ");
    if let Some(p) = file_of(event) {
        let line = human_spec(event)->0;
        let rest = line.skip(p.len() as int);
        assert(line =~= p + rest);
        assert(rest[0] == ':' && rest[1] == ' ');
        assert(line.take((p + ": "@).len() as int) =~= p + ": "@);
    }
    if let Some(t) = destination_of(event) {
        let line = human_spec(event)->0;
        assert(line.skip(line.len() - t.len()) =~= t);
    }
}

/// `event` as a line of prose, or `None` when the event is not worth
/// saying aloud.
pub fn human_line(event: &Event) -> (r: Option<String>)
    ensures
        r matches Some(line) ==> human_spec(*event) == Some(line@),
        r is None ==> human_spec(*event) is None,
        file_of(*event) matches Some(p) ==> r matches Some(line) && crate::text::starts_with(
            line@,
            p + ": "@,
        ),
        destination_of(*event) matches Some(t) ==> r matches Some(line) && ends_with(line@, t),
        *event matches Event::Renamed { path, target, .. } ==> r matches Some(line) && line@ == path@
            + ": renamed to "@ + target@,
{
    proof {
        file_lines_read_from_the_file_to_where_it_goes(*event);
    }
    match event {
        Event::RunStarted { .. } => None,
        Event::Resolved { path, identifier, source, cached, .. } => {
            let mut r = path_and(path, ": resolved ", identifier.as_str());
            r.append(" via ");
            r.append(source.as_str());
            if *cached {
                r.append(" (cached)");
            } else {
                r.append("");
                assert("" @ =~= Seq::<char>::empty()) by {
                    reveal_strlit("");
                }
            }
            Some(r)
        },
        Event::Planned { path, target } => Some(
            path_and(path, ": would rename to ", target.as_str()),
        ),
        Event::Renamed { path, target, .. } => Some(path_and(path, ": renamed to ", target.as_str())),
        Event::Reverted { path, target } => Some(
            path_and(path, ": moved back to ", target.as_str()),
        ),
        Event::Skipped { path, reason } => {
            let because = skipped_because(reason);
            Some(path_and(path, ": skipped, ", because.as_str()))
        },
        Event::BibEntry { path, key, outcome } => {
            let mut r = path_and(path, ": bibliography entry ", key.as_str());
            r.append(" ");
            r.append(outcome.as_str());
            Some(r)
        },
        Event::Sidecar { path, target } => Some(
            path_and(path, ": sidecar written to ", target.as_str()),
        ),
        Event::ConfigSetting { key, value, origin } => {
            let mut r = path_and(key, " = ", value.as_str());
            r.append("  # ");
            r.append(origin.as_str());
            Some(r)
        },
        Event::CacheStatus { root, entries, bytes } => {
            let mut r = path_and(root, ": ", decimal(*entries as u64).as_str());
            r.append(" entries, ");
            r.append(decimal(*bytes).as_str());
            r.append(" bytes");
            Some(r)
        },
        Event::CacheCleared { root, entries, bytes } => {
            let mut r = path_and(root, ": cleared ", decimal(*entries as u64).as_str());
            r.append(" entries, ");
            r.append(decimal(*bytes).as_str());
            r.append(" bytes");
            Some(r)
        },
        Event::LookupMissed { table, input } => {
            let quoted = debug_quote(input.as_str());
            Some(path_and(table, ": no row for ", quoted.as_str()))
        },
        Event::LedgerRebuilt { root, entries } => {
            let mut r = path_and(root, ": rebuilt with ", decimal(*entries as u64).as_str());
            r.append(" entries");
            Some(r)
        },
        Event::RunFinished { counts } => {
            let mut r = decimal(counts.resolved as u64);
            r.append(" resolved, ");
            r.append(decimal(counts.renamed as u64).as_str());
            r.append(" renamed, ");
            r.append(decimal(counts.skipped as u64).as_str());
            r.append(" skipped");
            if counts.unmatched != 0 {
                r.append(", ");
                r.append(decimal(counts.unmatched as u64).as_str());
                r.append(" unmatched");
            } else {
                proof {
                    assert(r@ + Seq::<char>::empty() =~= r@);
                }
            }
            Some(r)
        },
    }
}

} // verus!
