//! Reading back what a run moved, and moving it back.
//!
//! What makes a rename reversible is the applying run's own log, which
//! carries for every move the path the file came from, the path it went
//! to, and the content hash it had when it moved. `undo` moves a file
//! back only when it finds the content the log recorded; anything else
//! is reported and left alone.

use vstd::prelude::*;
use crate::event::{Event, SkipReason};
use crate::paths::{file_name, file_name_spec, first_index, parent, parent_spec};
use crate::text::{blank, is_blank};

verus! {

/// One applied rename, as a run log recorded it.
#[derive(Debug, Clone, PartialEq, Eq)]
pub struct Move {
    /// Where the file was before the run.
    pub from: String,
    /// Where the run put it.
    pub to: String,
    /// The content hash at the time of the move.
    pub hash: String,
}

/// Why a run log cannot be replayed at all.
#[derive(Debug, Clone, PartialEq, Eq)]
pub enum Refusal {
    /// A line carries a schema version this build does not understand.
    Schema { found: u32 },
    /// A line is not the JSON object every line of a run log is.
    Unreadable { message: String },
}

// ----------------------------------------------------------------------
// Lines.

/// `line` without a trailing carriage return.
pub open spec fn without_cr(line: Seq<char>) -> Seq<char> {
    if line.len() > 0 && line.last() == '\r' {
        line.drop_last()
    } else {
        line
    }
}

/// The lines of `text` as `str::lines` gives them: split at each `\n`,
/// a `\r` directly before it dropped, and no empty line after a final
/// line ending.
pub open spec fn lines_spec(text: Seq<char>) -> Seq<Seq<char>>
    decreases text.len(),
{
    let i = first_index(text, '\n');
    if text.len() == 0 {
        Seq::empty()
    } else if i < 0 {
        seq![text]
    } else {
        proof {
            crate::paths::lemma_first_index(text, '\n');
        }
        seq![without_cr(text.take(i))] + lines_spec(text.skip(i + 1))
    }
}

/// The lines of `text`.
pub fn lines(text: &str) -> (r: Vec<String>)
    ensures
        r@.map_values(|s: String| s@) == lines_spec(text@),
{
    let mut out: Vec<String> = Vec::new();
    let mut rest = String::from_str(text);
    loop
        invariant
            out@.map_values(|s: String| s@) + lines_spec(rest@) == lines_spec(text@),
        decreases rest@.len(),
    {
        let n = rest.unicode_len();
        if n == 0 {
            assert(out@.map_values(|s: String| s@) + Seq::<Seq<char>>::empty() =~= out@.map_values(
                |s: String| s@,
            ));
            return out;
        }
        proof {
            crate::paths::lemma_first_index(rest@, '\n');
        }
        match crate::paths::find_first(rest.as_str(), '\n') {
            None => {
                let ghost before = out@.map_values(|s: String| s@);
                out.push(rest);
                assert(out@.map_values(|s: String| s@) =~= before.push(rest@));
                assert(before + seq![rest@] =~= before.push(rest@));
                return out;
            },
            Some(i) => {
                let mut line = crate::text::head(rest.as_str(), i);
                let m = line.unicode_len();
                if m > 0 && line.as_str().get_char(m - 1) == '\r' {
                    line = crate::text::head(line.as_str(), m - 1);
                    assert(line@ =~= without_cr(rest@.take(i as int)));
                }
                let next = crate::text::tail(rest.as_str(), i + 1);
                let ghost before = out@.map_values(|s: String| s@);
                let ghost l = line@;
                out.push(line);
                assert(out@.map_values(|s: String| s@) =~= before.push(l));
                assert(lines_spec(rest@) == seq![l] + lines_spec(next@));
                assert(before.push(l) + lines_spec(next@) =~= before + (seq![l] + lines_spec(
                    next@,
                )));
                rest = next;
            },
        }
    }
}

// ----------------------------------------------------------------------
// Reading one line of a run log.

/// What one line of a run log says about its schema and its event.
#[derive(Debug, Clone, PartialEq, Eq)]
pub struct LogLine {
    /// The `schema` field, when it is a whole number.
    pub schema: Option<u64>,
    /// The `event` field, when it is a string.
    pub event: Option<String>,
}

/// A string-valued field, as plain characters.
pub open spec fn chars_of(o: Option<String>) -> Option<Seq<char>> {
    match o {
        Some(s) => Some(s@),
        None => None,
    }
}

/// What `serde_json` makes of one line of text: either the message of
/// its parse error, or the line's `schema` (when a whole number) and its
/// `event` (when a string).
pub uninterp spec fn json_fields(line: Seq<char>) -> Result<(Option<u64>, Option<Seq<char>>), Seq<char>>;

/// Parse `line` as JSON and read its schema and event.
///
/// Wraps `serde_json::from_str::<serde_json::Value>`: the result is the
/// parse error's message, or the value's `schema` as `as_u64` reads it
/// and its `event` as `as_str` reads it, each `None` when the field is
/// absent or of another type. Both are functions of `line` alone; what
/// they are for a given line is not spelled out here.
#[verifier::external_body]
pub(crate) fn parse_log_line(line: &str) -> (r: Result<LogLine, String>)
    ensures
        match r {
            Ok(l) => json_fields(line@) == Ok::<(Option<u64>, Option<Seq<char>>), Seq<char>>(
                (l.schema, chars_of(l.event)),
            ),
            Err(m) => json_fields(line@) == Err::<(Option<u64>, Option<Seq<char>>), Seq<char>>(m@),
        },
{
    match serde_json::from_str::<serde_json::Value>(line) {
        Ok(value) => Ok(LogLine {
            schema: value.get("schema").and_then(serde_json::Value::as_u64),
            event: value.get("event").and_then(serde_json::Value::as_str).map(String::from),
        }),
        Err(error) => Err(error.to_string()),
    }
}

/// A field as plain characters: absent, its text, or the message it was
/// refused with.
pub open spec fn field_view(f: Option<Result<String, String>>) -> Option<Result<Seq<char>, Seq<char>>> {
    match f {
        None => None,
        Some(Ok(t)) => Some(Ok(t@)),
        Some(Err(m)) => Some(Err(m@)),
    }
}

/// What `serde_json` makes of the field `key` of the JSON text `line`
/// read as a path: `None` when the line is no JSON object or has no such
/// field, and otherwise the path or the message of the refusal.
pub uninterp spec fn json_path_field(line: Seq<char>, key: Seq<char>) -> Option<Result<Seq<char>, Seq<char>>>;

/// The field `key` of the JSON text `line`, read as a path.
///
/// Wraps `serde_json::from_str::<serde_json::Value>`, `Value::get` and
/// `serde_json::from_value::<PathBuf>`: `None` when the line does not
/// parse or has no such field; otherwise what `from_value` answers,
/// its error as its message. A function of `line` and `key` alone.
#[verifier::external_body]
pub(crate) fn path_field(line: &str, key: &str) -> (r: Option<Result<String, String>>)
    ensures
        field_view(r) == json_path_field(line@, key@),
{
    let value = serde_json::from_str::<serde_json::Value>(line).ok()?;
    let field = value.get(key)?.clone();
    Some(
        serde_json::from_value::<std::path::PathBuf>(field)
            .map(|path| path.to_string_lossy().into_owned())
            .map_err(|error| error.to_string()),
    )
}

/// What `serde_json` makes of the field `key` of the JSON text `line`
/// read as a string: `None` when the line is no JSON object or has no
/// such field, and otherwise the text or the message of the refusal.
pub uninterp spec fn json_string_field(line: Seq<char>, key: Seq<char>) -> Option<Result<Seq<char>, Seq<char>>>;

/// The field `key` of the JSON text `line`, read as a string.
///
/// Wraps `serde_json::from_str::<serde_json::Value>`, `Value::get` and
/// `serde_json::from_value::<String>`: `None` when the line does not
/// parse or has no such field; otherwise what `from_value` answers,
/// its error as its message. A function of `line` and `key` alone.
#[verifier::external_body]
pub(crate) fn string_field(line: &str, key: &str) -> (r: Option<Result<String, String>>)
    ensures
        field_view(r) == json_string_field(line@, key@),
{
    let value = serde_json::from_str::<serde_json::Value>(line).ok()?;
    let field = value.get(key)?.clone();
    Some(serde_json::from_value::<String>(field).map_err(|error| error.to_string()))
}

// ----------------------------------------------------------------------
// Replaying a log.

/// The tag a run log's applied renames carry.
pub const RENAMED: &'static str = "renamed";

/// A move, as plain characters: from, to, hash.
pub type MoveView = (Seq<char>, Seq<char>, Seq<char>);

/// A refusal, as plain values.
pub enum RefusalView {
    Schema(u32),
    Unreadable(Seq<char>),
}

/// The message a `renamed` line missing a field is refused with.
pub open spec fn missing(field: Seq<char>) -> Seq<char> {
    "missing field `"@ + field + "`"@
}

/// What one non-blank line adds to a replay: nothing, a move, or a
/// refusal of the whole log.
///
/// A `renamed` line is read as a move the way a derived reader reads
/// one from a JSON object: its fields in the object's key order —
/// `hash`, `path`, `target` — the first of a type it cannot take
/// refusing the line with its message, and then the first of `path`,
/// `target` and `hash` that is absent.
pub open spec fn line_verdict(line: Seq<char>) -> Result<Option<MoveView>, RefusalView> {
    match json_fields(line) {
        Err(message) => Err(RefusalView::Unreadable(message)),
        Ok((schema, event)) => if schema != Some(1u64) {
            Err(
                RefusalView::Schema(
                    match schema {
                        Some(found) => found as u32,
                        None => 0,
                    },
                ),
            )
        } else if event != Some("renamed"@) {
            Ok(None)
        } else {
            let p = json_path_field(line, "path"@);
            let t = json_path_field(line, "target"@);
            let h = json_string_field(line, "hash"@);
            match (h, p, t) {
                (Some(Err(m)), _, _) => Err(RefusalView::Unreadable(m)),
                (_, Some(Err(m)), _) => Err(RefusalView::Unreadable(m)),
                (_, _, Some(Err(m))) => Err(RefusalView::Unreadable(m)),
                _ => match (p, t, h) {
                    (Some(Ok(from)), Some(Ok(to)), Some(Ok(hash))) => Ok(Some((from, to, hash))),
                    (None, _, _) => Err(RefusalView::Unreadable(missing("path"@))),
                    (_, None, _) => Err(RefusalView::Unreadable(missing("target"@))),
                    _ => Err(RefusalView::Unreadable(missing("hash"@))),
                },
            }
        },
    }
}

/// The moves `lines` record, oldest first, or the refusal of the first
/// line that cannot be trusted. Blank lines carry no event.
pub open spec fn replay(lines: Seq<Seq<char>>) -> Result<Seq<MoveView>, RefusalView>
    decreases lines.len(),
{
    if lines.len() == 0 {
        Ok(Seq::empty())
    } else if is_blank(lines[0]) {
        replay(lines.skip(1))
    } else {
        match line_verdict(lines[0]) {
            Err(refusal) => Err(refusal),
            Ok(found) => match replay(lines.skip(1)) {
                Err(refusal) => Err(refusal),
                Ok(rest) => Ok(
                    match found {
                        Some(m) => seq![m] + rest,
                        None => rest,
                    },
                ),
            },
        }
    }
}

/// A move as plain characters.
pub open spec fn move_view(m: Move) -> MoveView {
    (m.from@, m.to@, m.hash@)
}

/// A refusal as plain values.
pub open spec fn refusal_view(r: Refusal) -> RefusalView {
    match r {
        Refusal::Schema { found } => RefusalView::Schema(found),
        Refusal::Unreadable { message } => RefusalView::Unreadable(message@),
    }
}

fn missing_field(field: &str) -> (r: Refusal)
    ensures
        refusal_view(r) == RefusalView::Unreadable(missing(field@)),
{
    let mut message = String::from_str("missing field `");
    message.append(field);
    message.append("`");
    Refusal::Unreadable { message }
}

fn verdict(line: &str) -> (r: Result<Option<Move>, Refusal>)
    ensures
        match r {
            Ok(Some(m)) => line_verdict(line@) == Ok::<Option<MoveView>, RefusalView>(
                Some(move_view(m)),
            ),
            Ok(None) => line_verdict(line@) == Ok::<Option<MoveView>, RefusalView>(None),
            Err(refusal) => line_verdict(line@) == Err::<Option<MoveView>, RefusalView>(
                refusal_view(refusal),
            ),
        },
{
    let parsed = match parse_log_line(line) {
        Ok(parsed) => parsed,
        Err(message) => return Err(Refusal::Unreadable { message }),
    };
    match parsed.schema {
        Some(1) => {},
        Some(found) => return Err(Refusal::Schema { found: #[verifier::truncate] (found as u32) }),
        None => return Err(Refusal::Schema { found: 0 }),
    }
    let renamed = match &parsed.event {
        Some(event) => crate::text::same(event.as_str(), RENAMED),
        None => false,
    };
    if !renamed {
        return Ok(None);
    }
    let h = string_field(line, "hash");
    let p = path_field(line, "path");
    let t = path_field(line, "target");
    proof {
        reveal_strlit("hash");
        reveal_strlit("path");
        reveal_strlit("target");
    }
    if let Some(Err(message)) = h {
        return Err(Refusal::Unreadable { message });
    }
    if let Some(Err(message)) = p {
        return Err(Refusal::Unreadable { message });
    }
    if let Some(Err(message)) = t {
        return Err(Refusal::Unreadable { message });
    }
    match (p, t, h) {
        (Some(Ok(from)), Some(Ok(to)), Some(Ok(hash))) => Ok(Some(Move { from, to, hash })),
        (None, _, _) => Err(missing_field("path")),
        (_, None, _) => Err(missing_field("target")),
        _ => Err(missing_field("hash")),
    }
}

/// The moves a run log's text records, oldest first.
///
/// Only the lines tagged `renamed` become moves. Every non-blank line's
/// `schema` is checked, and the first that is not this build's refuses
/// the whole log; so does the first line that is not JSON, or a
/// `renamed` line missing a field a move needs. Blank lines are passed
/// over.
pub fn moves_in(text: &str) -> (r: Result<Vec<Move>, Refusal>)
    ensures
        match r {
            Ok(moves) => replay(lines_spec(text@)) == Ok::<Seq<MoveView>, RefusalView>(
                moves@.map_values(|m: Move| move_view(m)),
            ),
            Err(refusal) => replay(lines_spec(text@)) == Err::<Seq<MoveView>, RefusalView>(
                refusal_view(refusal),
            ),
        },
{
    let all = lines(text);
    let ghost views = all@.map_values(|s: String| s@);
    let mut moves: Vec<Move> = Vec::new();
    let mut i: usize = 0;
    assert(views.skip(0) =~= views);
    while i < all.len()
        invariant
            i <= all@.len(),
            views == all@.map_values(|s: String| s@),
            views == lines_spec(text@),
            replay(views) == (match replay(views.skip(i as int)) {
                Err(refusal) => Err(refusal),
                Ok(rest) => Ok(moves@.map_values(|m: Move| move_view(m)) + rest),
            }),
        decreases all@.len() - i,
    {
        let line = &all[i];
        let ghost tail = views.skip(i as int);
        assert(tail[0] == line@);
        assert(tail.skip(1) =~= views.skip(i + 1));
        if blank(line.as_str()) {
            i = i + 1;
            continue;
        }
        match verdict(line.as_str()) {
            Err(refusal) => {
                return Err(refusal);
            },
            Ok(found) => {
                let ghost before = moves@.map_values(|m: Move| move_view(m));
                match found {
                    Some(m) => {
                        let ghost mv = move_view(m);
                        moves.push(m);
                        assert(moves@.map_values(|m: Move| move_view(m)) =~= before.push(mv));
                        assert forall|rest: Seq<MoveView>| #[trigger] (before + (seq![mv] + rest))
                            == before.push(mv) + rest by {
                            assert(before + (seq![mv] + rest) =~= before.push(mv) + rest);
                        }
                    },
                    None => {},
                }
                i = i + 1;
            },
        }
    }
    assert(views.skip(all@.len() as int) =~= Seq::<Seq<char>>::empty());
    assert(moves@.map_values(|m: Move| move_view(m)) + Seq::<MoveView>::empty() =~= moves@.map_values(
        |m: Move| move_view(m),
    ));
    Ok(moves)
}

// ----------------------------------------------------------------------
// Moving back.

/// Why a move could not be reverted.
#[derive(Debug, Clone, PartialEq, Eq)]
pub enum Unrevertible {
    /// Nothing is at the recorded new path any more.
    Missing,
    /// Something is there, but not what was moved there.
    ContentChanged,
    /// The original path is occupied, so reverting would overwrite.
    OriginalTaken,
    /// The move itself failed.
    Failed { message: String },
}

/// What undo did about one move.
#[derive(Debug, Clone, PartialEq, Eq)]
pub enum UndoOutcome {
    /// The file moved from `from` — where the run had put it — back to
    /// `to`, where it started.
    Reverted { from: String, to: String },
    /// The move was left alone, for the stated reason. `path` is always
    /// the recorded new path.
    Left { path: String, reason: Unrevertible },
}

/// Whether `outcome` is what undoing `recorded` may come to, given what
/// the three outside questions could have answered: the hash found at
/// the recorded new path, whether the original name is occupied, and
/// whether the move back succeeded.
///
/// The checks run in order and the first that fails is the reason:
/// nothing at the new path, other content there, the original taken.
/// Only when all pass is the file moved, and it is reported reverted
/// exactly when the move succeeded.
pub open spec fn undo_outcome_ok<H, O, R>(
    recorded: Move,
    hash_at: H,
    occupied: O,
    rename: R,
    outcome: UndoOutcome,
) -> bool where H: Fn(String) -> Option<String>, O: Fn(String, String) -> bool, R: Fn(String, String) -> Result<(), String> {
    let found_missing = call_ensures(hash_at, (recorded.to,), None::<String>);
    let place = (parent_spec(recorded.from@), file_name_spec(recorded.from@));
    match outcome {
        UndoOutcome::Reverted { from, to } => {
            &&& from@ == recorded.to@
            &&& to@ == recorded.from@
            &&& exists|h: String| #[trigger] call_ensures(hash_at, (recorded.to,), Some(h)) && h@ == recorded.hash@
            &&& place.0 is Some && place.1 is Some
            &&& exists|d: String, n: String|
                d@ == place.0->0 && n@ == place.1->0 && #[trigger] call_ensures(occupied, (d, n), false)
            &&& call_ensures(rename, (recorded.to, recorded.from), Ok::<(), String>(()))
        },
        UndoOutcome::Left { path, reason } => {
            &&& path@ == recorded.to@
            &&& match reason {
                Unrevertible::Missing => found_missing,
                Unrevertible::ContentChanged => exists|h: String|
                    #[trigger] call_ensures(hash_at, (recorded.to,), Some(h)) && h@ != recorded.hash@,
                Unrevertible::OriginalTaken => (exists|h: String|
                    #[trigger] call_ensures(hash_at, (recorded.to,), Some(h)) && h@ == recorded.hash@) && (place.0 is None
                    || place.1 is None || exists|d: String, n: String|
                    d@ == place.0->0 && n@ == place.1->0 && #[trigger] call_ensures(
                        occupied,
                        (d, n),
                        true,
                    )),
                Unrevertible::Failed { message } => exists|m: String|
                    m@ == message@ && #[trigger] call_ensures(
                        rename,
                        (recorded.to, recorded.from),
                        Err::<(), String>(m),
                    ),
            }
        },
    }
}

/// Verify `recorded` and move its file back, or report why not.
///
/// `hash_at` answers the content hash of the file at a path, `None`
/// when there is nothing there; `occupied` answers whether a directory
/// holds a name; `rename` moves a file. A recorded original that names
/// no directory or no file counts as occupied, since its freedom cannot
/// be established.
pub fn revert<H, O, R>(recorded: &Move, hash_at: &H, occupied: &O, rename: &R) -> (outcome:
    UndoOutcome) where H: Fn(String) -> Option<String>, O: Fn(String, String) -> bool, R: Fn(String, String) -> Result<(), String>
    requires
        forall|p: String| call_requires(*hash_at, (p,)),
        forall|d: String, n: String| call_requires(*occupied, (d, n)),
        forall|a: String, b: String| call_requires(*rename, (a, b)),
    ensures
        undo_outcome_ok(*recorded, *hash_at, *occupied, *rename, outcome),
{
    let left = |reason: Unrevertible| -> (o: UndoOutcome)
        ensures
            o == (UndoOutcome::Left { path: recorded.to, reason }),
        { UndoOutcome::Left { path: recorded.to.clone(), reason } };
    let found = hash_at(recorded.to.clone());
    let hash = match found {
        None => return left(Unrevertible::Missing),
        Some(hash) => hash,
    };
    let ghost h = hash;
    assert(call_ensures(*hash_at, (recorded.to,), Some(h)));
    if !crate::text::same(hash.as_str(), recorded.hash.as_str()) {
        assert(exists|h: String| #[trigger] call_ensures(*hash_at, (recorded.to,), Some(h)) && h@ != recorded.hash@);
        return left(Unrevertible::ContentChanged);
    }
    assert(exists|h: String| #[trigger] call_ensures(*hash_at, (recorded.to,), Some(h)) && h@ == recorded.hash@);
    let directory = parent(recorded.from.as_str());
    let name = file_name(recorded.from.as_str());
    let (directory, name) = match (directory, name) {
        (Some(d), Some(n)) => (d, n),
        _ => return left(Unrevertible::OriginalTaken),
    };
    let ghost (gd, gn) = (directory, name);
    let taken = occupied(directory, name);
    assert(call_ensures(*occupied, (gd, gn), taken));
    if taken {
        assert(exists|d: String, n: String|
            d@ == gd@ && n@ == gn@ && #[trigger] call_ensures(*occupied, (d, n), true));
        return left(Unrevertible::OriginalTaken);
    }
    assert(exists|d: String, n: String|
        d@ == gd@ && n@ == gn@ && #[trigger] call_ensures(*occupied, (d, n), false));
    let back_from = recorded.to.clone();
    let back_to = recorded.from.clone();
    let result = rename(back_from, back_to);
    assert(call_ensures(*rename, (recorded.to, recorded.from), result));
    match result {
        Ok(unit) => {
            assert(result == Ok::<(), String>(unit));
            assert(unit == ());
            UndoOutcome::Reverted { from: recorded.to.clone(), to: recorded.from.clone() }
        },
        Err(message) => {
            let ghost gm = message;
            let o = left(Unrevertible::Failed { message });
            assert(call_ensures(*rename, (recorded.to, recorded.from), Err::<(), String>(gm)));
            o
        },
    }
}

/// Revert `moves`, which are one run's, in the order it applied them.
///
/// They are reverted in reverse, so a run that renamed `a`→`b` and then
/// `b`→`c` unwinds without either step landing on a name the other still
/// holds. Each is verified before it is touched ([`revert`]), and one
/// left alone does not stop the others. Outcomes come back in the order
/// the moves were reverted.
pub fn undo_moves<H, O, R>(moves: &Vec<Move>, hash_at: &H, occupied: &O, rename: &R) -> (outcomes:
    Vec<UndoOutcome>) where H: Fn(String) -> Option<String>, O: Fn(String, String) -> bool, R: Fn(String, String) -> Result<(), String>
    requires
        forall|p: String| call_requires(*hash_at, (p,)),
        forall|d: String, n: String| call_requires(*occupied, (d, n)),
        forall|a: String, b: String| call_requires(*rename, (a, b)),
    ensures
        outcomes@.len() == moves@.len(),
        forall|i: int|
            0 <= i < moves@.len() ==> undo_outcome_ok(
                moves@[moves@.len() - 1 - i],
                *hash_at,
                *occupied,
                *rename,
                #[trigger] outcomes@[i],
            ),
{
    let n = moves.len();
    let mut outcomes: Vec<UndoOutcome> = Vec::new();
    let mut k: usize = n;
    while k > 0
        invariant
            n == moves@.len(),
            k <= n,
            outcomes@.len() == n - k,
            forall|p: String| call_requires(*hash_at, (p,)),
            forall|d: String, m: String| call_requires(*occupied, (d, m)),
            forall|a: String, b: String| call_requires(*rename, (a, b)),
            forall|i: int|
                0 <= i < outcomes@.len() ==> undo_outcome_ok(
                    moves@[n - 1 - i],
                    *hash_at,
                    *occupied,
                    *rename,
                    #[trigger] outcomes@[i],
                ),
        decreases k,
    {
        let outcome = revert(&moves[k - 1], hash_at, occupied, rename);
        outcomes.push(outcome);
        k = k - 1;
    }
    outcomes
}

/// The skip reason a move left alone is reported under.
pub open spec fn reason_for(reason: Unrevertible) -> SkipReason {
    match reason {
        Unrevertible::Missing => SkipReason::Missing,
        Unrevertible::ContentChanged => SkipReason::ContentChanged,
        Unrevertible::OriginalTaken => SkipReason::OriginalTaken,
        Unrevertible::Failed { message } => SkipReason::RenameFailed { message },
    }
}

/// The event reporting `outcome`: a reverted file is an
/// [`Event::Reverted`] from where the run put it to where it started, and
/// one left alone is skipped for the matching reason.
pub fn event_for(outcome: &UndoOutcome) -> (e: Event)
    ensures
        e == (match *outcome {
            UndoOutcome::Reverted { from, to } => Event::Reverted { path: from, target: to },
            UndoOutcome::Left { path, reason } => Event::Skipped { path, reason: reason_for(reason) },
        }),
{
    match outcome {
        UndoOutcome::Reverted { from, to } => Event::Reverted { path: from.clone(), target: to.clone() },
        UndoOutcome::Left { path, reason } => Event::Skipped {
            path: path.clone(),
            reason: match reason {
                Unrevertible::Missing => SkipReason::Missing,
                Unrevertible::ContentChanged => SkipReason::ContentChanged,
                Unrevertible::OriginalTaken => SkipReason::OriginalTaken,
                Unrevertible::Failed { message } => SkipReason::RenameFailed { message: message.clone() },
            },
        },
    }
}

} // verus!
