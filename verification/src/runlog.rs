//! Where a run's record goes, and what it is called.
//!
//! A run log is the run's event stream written to a file. Everything here
//! is about placement and naming, decided before the first event exists:
//! which run keeps a log, where it lands, and which run cannot go ahead
//! without one.

use vstd::prelude::*;
use crate::cli::{Command, command_name};
use crate::ledger::ACCOUNTING_DIR;
use crate::paths::{absolute, is_absolute, join, join_spec};
use crate::text::{filtered, is_ascii_alphanumeric, push_char};

verus! {

/// The directory run logs are kept in.
pub const RUNS_DIR: &'static str = "runs";

/// The extension every run log carries.
pub const LOG_EXTENSION: &'static str = "jsonl";

/// The on-disk layout version, the last path segment of the state
/// directory.
pub const FORMAT_VERSION: &'static str = "v1";

/// The value the environment `env` gives `name`: the first pair that
/// names it, as a lookup in a process environment answers.
pub open spec fn lookup(env: Seq<(String, String)>, name: Seq<char>) -> Option<Seq<char>>
    decreases env.len(),
{
    if env.len() == 0 {
        None
    } else if env[0].0@ == name {
        Some(env[0].1@)
    } else {
        lookup(env.skip(1), name)
    }
}

/// The value the environment `env` gives `name`.
pub fn env_lookup(env: &Vec<(String, String)>, name: &str) -> (r: Option<String>)
    ensures
        r matches Some(v) ==> lookup(env@, name@) == Some(v@),
        r is None ==> lookup(env@, name@) is None,
{
    let mut i: usize = 0;
    assert(env@.skip(0) =~= env@);
    while i < env.len()
        invariant
            i <= env@.len(),
            lookup(env@, name@) == lookup(env@.skip(i as int), name@),
        decreases env@.len() - i,
    {
        assert(env@.skip(i as int).skip(1) =~= env@.skip(i + 1));
        assert(env@.skip(i as int)[0] == env@[i as int]);
        if crate::text::same(env[i].0.as_str(), name) {
            return Some(env[i].1.clone());
        }
        i = i + 1;
    }
    None
}

/// The directory the variable `name` names, when its value is absolute,
/// with `suffix` joined on when there is one.
pub open spec fn candidate(env: Seq<(String, String)>, name: Seq<char>, suffix: Option<Seq<char>>) -> Option<
    Seq<char>,
> {
    match lookup(env, name) {
        Some(value) => if absolute(value) {
            match suffix {
                Some(s) => Some(join_spec(value, s)),
                None => Some(value),
            }
        } else {
            None
        },
        None => None,
    }
}

pub(crate) fn candidate_dir(env: &Vec<(String, String)>, name: &str, suffix: Option<&str>) -> (r: Option<
    String,
>)
    ensures
        r matches Some(v) ==> candidate(
            env@,
            name@,
            match suffix {
                Some(s) => Some(s@),
                None => None,
            },
        ) == Some(v@),
        r is None ==> candidate(
            env@,
            name@,
            match suffix {
                Some(s) => Some(s@),
                None => None,
            },
        ) is None,
{
    match env_lookup(env, name) {
        Some(value) => {
            if is_absolute(value.as_str()) {
                match suffix {
                    Some(s) => Some(join(value.as_str(), s)),
                    None => Some(value),
                }
            } else {
                None
            }
        },
        None => None,
    }
}

/// The borax state directory the environment `env` implies: the first
/// of `XDG_STATE_HOME` and `HOME/.local/state` whose variable holds an
/// absolute path, followed by `borax/v1`.
pub open spec fn state_root_spec(env: Seq<(String, String)>) -> Option<Seq<char>> {
    let base = match candidate(env, "XDG_STATE_HOME"@, None) {
        Some(b) => Some(b),
        None => candidate(env, "HOME"@, Some(".local/state"@)),
    };
    match base {
        Some(b) => Some(join_spec(join_spec(b, "borax"@), "v1"@)),
        None => None,
    }
}

/// The borax state directory implied by the environment `env`, given
/// as name/value pairs.
///
/// The candidates are tried in order and the first whose value is an
/// absolute path is taken: `XDG_STATE_HOME`, then `HOME` (as
/// `HOME/.local/state`). A variable that is unset, empty, or relative is
/// skipped. The path ends in `borax/v1` and is neither created nor
/// checked for existence. `None` when no candidate qualifies.
pub fn state_root(env: &Vec<(String, String)>) -> (r: Option<String>)
    ensures
        r matches Some(v) ==> state_root_spec(env@) == Some(v@),
        r is None ==> state_root_spec(env@) is None,
{
    let base = match candidate_dir(env, "XDG_STATE_HOME", None) {
        Some(b) => Some(b),
        None => candidate_dir(env, "HOME", Some(".local/state")),
    };
    match base {
        Some(b) => {
            let with_borax = join(b.as_str(), "borax");
            Some(join(with_borax.as_str(), FORMAT_VERSION))
        },
        None => None,
    }
}

/// What a run log's name says about whether the run was applying.
pub open spec fn phase_text(applying: bool) -> Seq<char> {
    if applying {
        "apply"@
    } else {
        "dry"@
    }
}

/// What a run log's name says about whether the run was applying.
pub fn phase(applying: bool) -> (r: &'static str)
    ensures
        r@ == phase_text(applying),
{
    if applying {
        "apply"
    } else {
        "dry"
    }
}

/// `command` with each space closed up to a `-`.
pub open spec fn hyphenated(command: Seq<char>) -> Seq<char> {
    command.map_values(|c: char| if c == ' ' { '-' } else { c })
}

/// The name a run log carries: `<stamp>-<command>-<dry|apply>.jsonl`,
/// where the stamp is the timestamp's letters and digits alone.
pub open spec fn log_name_spec(timestamp: Seq<char>, command: Seq<char>, applying: bool) -> Seq<
    char,
> {
    filtered(timestamp, |c: char| is_ascii_alphanumeric(c)) + "-"@ + hyphenated(command) + "-"@
        + phase_text(applying) + "."@ + "jsonl"@
}

/// The name a run log carries: `<stamp>-<command>-<dry|apply>.jsonl`.
///
/// `timestamp` keeps only its ASCII letters and digits, so an ISO 8601
/// extended stamp becomes the basic form and no separator reaches the
/// filename. `command` has the space of a two-word name closed up to a
/// `-`. The timestamp leads so that a listing sorts by time.
pub fn log_name(timestamp: &str, command: &str, applying: bool) -> (r: String)
    ensures
        r@ == log_name_spec(timestamp@, command@, applying),
{
    let n = timestamp.unicode_len();
    let mut stamp = String::new();
    let mut i: usize = 0;
    while i < n
        invariant
            n == timestamp@.len(),
            i <= n,
            stamp@ == filtered(timestamp@.take(i as int), |c: char| is_ascii_alphanumeric(c)),
        decreases n - i,
    {
        let c = timestamp.get_char(i);
        assert(timestamp@.take(i + 1).drop_last() =~= timestamp@.take(i as int));
        if crate::text::ascii_alphanumeric(c) {
            push_char(&mut stamp, c);
        }
        i = i + 1;
    }
    assert(timestamp@.take(n as int) =~= timestamp@);
    let m = command.unicode_len();
    let mut name = String::new();
    let mut j: usize = 0;
    while j < m
        invariant
            m == command@.len(),
            j <= m,
            name@ == hyphenated(command@.take(j as int)),
        decreases m - j,
    {
        let c = command.get_char(j);
        push_char(&mut name, if c == ' ' { '-' } else { c });
        assert(hyphenated(command@.take(j + 1)) =~= hyphenated(command@.take(j as int)).push(
            if c == ' ' { '-' } else { c },
        ));
        j = j + 1;
    }
    assert(command@.take(m as int) =~= command@);
    let mut r = stamp;
    r.append("-");
    r.append(name.as_str());
    r.append("-");
    r.append(phase(applying));
    r.append(".");
    r.append(LOG_EXTENSION);
    r
}

/// Where a run's log goes, and whether the run depends on it.
#[derive(Debug, Clone, PartialEq, Eq)]
pub struct Destination {
    pub path: String,
    /// Whether the run has to abandon itself when the log cannot be
    /// written.
    pub mandatory: bool,
}

/// Whether `command`'s log has to exist for the run to go ahead: true
/// for `rename --apply` and nothing else, since a renamed file's old
/// name is recorded nowhere but in that log.
pub open spec fn mandatory_spec(command: Command) -> bool {
    command matches Command::Rename { apply, .. } && apply
}

/// Whether `command`'s log has to exist for the run to go ahead.
pub fn mandatory(command: &Command) -> (r: bool)
    ensures
        r == mandatory_spec(*command),
{
    match command {
        Command::Rename { apply, .. } => *apply,
        _ => false,
    }
}

/// Where `command`'s run log goes, or `None` when it keeps none.
pub open spec fn destination_spec(
    command: Command,
    applying: bool,
    enabled: bool,
    timestamp: Seq<char>,
    collection_root: Option<Seq<char>>,
    state_root: Option<Seq<char>>,
) -> Option<(Seq<char>, bool)> {
    let mandatory = mandatory_spec(command);
    let name = log_name_spec(timestamp, command_name(command), applying);
    if !enabled && !mandatory {
        None
    } else {
        match collection_root {
            Some(root) => Some(
                (join_spec(join_spec(join_spec(root, ".borax"@), "runs"@), name), mandatory),
            ),
            None => match state_root {
                Some(state) => if mandatory {
                    Some((join_spec(join_spec(state, "runs"@), name), mandatory))
                } else {
                    None
                },
                None => None,
            },
        }
    }
}

/// Where `command`'s run log goes, or `None` when it keeps none.
///
/// A mandatory log ignores `enabled`; a collection root takes the log,
/// under its `.borax/runs`; outside a collection only a mandatory log
/// has anywhere to go, under `state_root`'s `runs`.
pub fn destination(
    command: &Command,
    applying: bool,
    enabled: bool,
    timestamp: &str,
    collection_root: Option<&str>,
    state_root: Option<&str>,
) -> (r: Option<Destination>)
    ensures
        r matches Some(d) ==> destination_spec(
            *command,
            applying,
            enabled,
            timestamp@,
            match collection_root {
                Some(c) => Some(c@),
                None => None,
            },
            match state_root {
                Some(s) => Some(s@),
                None => None,
            },
        ) == Some((d.path@, d.mandatory)),
        r is None ==> destination_spec(
            *command,
            applying,
            enabled,
            timestamp@,
            match collection_root {
                Some(c) => Some(c@),
                None => None,
            },
            match state_root {
                Some(s) => Some(s@),
                None => None,
            },
        ) is None,
{
    let mandatory = mandatory(command);
    if !enabled && !mandatory {
        return None;
    }
    let directory = match (collection_root, state_root) {
        (Some(root), _) => {
            let accounting = join(root, ACCOUNTING_DIR);
            join(accounting.as_str(), RUNS_DIR)
        },
        (None, Some(state)) => {
            if mandatory {
                join(state, RUNS_DIR)
            } else {
                return None;
            }
        },
        (None, None) => return None,
    };
    let name = log_name(timestamp, command.name(), applying);
    Some(Destination { path: join(directory.as_str(), name.as_str()), mandatory })
}

/// Whether `s` ends with `suffix`.
pub open spec fn ends_with(s: Seq<char>, suffix: Seq<char>) -> bool {
    suffix.len() <= s.len() && s.skip(s.len() - suffix.len()) == suffix
}

/// Whether `s` ends with `suffix`.
fn has_suffix(s: &str, suffix: &str) -> (r: bool)
    ensures
        r == ends_with(s@, suffix@),
{
    let n = s.unicode_len();
    let m = suffix.unicode_len();
    if m > n {
        return false;
    }
    let mut i: usize = 0;
    while i < m
        invariant
            n == s@.len(),
            m == suffix@.len(),
            m <= n,
            i <= m,
            forall|j: int| 0 <= j < i ==> s@[n - m + j] == suffix@[j],
        decreases m - i,
    {
        if s.get_char(n - m + i) != suffix.get_char(i) {
            assert(s@.skip(n - m)[i as int] != suffix@[i as int]);
            return false;
        }
        i = i + 1;
    }
    assert(s@.skip(n - m) =~= suffix@);
    true
}

/// Whether `name` is the name of an apply-run log.
pub open spec fn is_apply_log(name: Seq<char>) -> bool {
    ends_with(name, "-apply.jsonl"@)
}

/// The most recent apply-run log named in `names`, a listing of a runs
/// directory: of the names that end in `-apply.jsonl`, the greatest,
/// since a log's name leads with its timestamp; `None` when there is
/// none.
pub fn latest_apply(names: &Vec<String>) -> (r: Option<String>)
    ensures
        match r {
            Some(latest) => {
                &&& is_apply_log(latest@)
                &&& exists|i: int| 0 <= i < names@.len() && names@[i]@ == latest@
                &&& forall|i: int|
                    0 <= i < names@.len() && is_apply_log(#[trigger] names@[i]@) ==> !crate::dict::less(
                        latest@,
                        names@[i]@,
                    )
            },
            None => forall|i: int| 0 <= i < names@.len() ==> !is_apply_log(#[trigger] names@[i]@),
        },
{
    let mut best: Option<String> = None;
    let mut i: usize = 0;
    while i < names.len()
        invariant
            i <= names@.len(),
            match best {
                Some(b) => {
                    &&& is_apply_log(b@)
                    &&& exists|j: int| 0 <= j < i && names@[j]@ == b@
                    &&& forall|j: int|
                        0 <= j < i && is_apply_log(#[trigger] names@[j]@) ==> !crate::dict::less(
                            b@,
                            names@[j]@,
                        )
                },
                None => forall|j: int| 0 <= j < i ==> !is_apply_log(#[trigger] names@[j]@),
            },
        decreases names@.len() - i,
    {
        let name = &names[i];
        if has_suffix(name.as_str(), "-apply.jsonl") {
            let better = match &best {
                Some(b) => crate::dict::str_less(b.as_str(), name.as_str()),
                None => true,
            };
            if better {
                proof {
                    if let Some(b) = best {
                        assert forall|j: int|
                            0 <= j < i + 1 && is_apply_log(#[trigger] names@[j]@) implies !crate::dict::less(
                            name@,
                            names@[j]@,
                        ) by {
                            if j < i {
                                crate::dict::lemma_less_asymmetric(b@, name@);
                                if crate::dict::less(name@, names@[j]@) {
                                    crate::dict::lemma_less_transitive(b@, name@, names@[j]@);
                                }
                            } else {
                                crate::dict::lemma_less_irreflexive(name@);
                            }
                        }
                    } else {
                        assert forall|j: int|
                            0 <= j < i + 1 && is_apply_log(#[trigger] names@[j]@) implies !crate::dict::less(
                            name@,
                            names@[j]@,
                        ) by {
                            crate::dict::lemma_less_irreflexive(name@);
                        }
                    }
                }
                best = Some(name.clone());
            } else {
                proof {
                    let b = best->0;
                    assert forall|j: int|
                        0 <= j < i + 1 && is_apply_log(#[trigger] names@[j]@) implies !crate::dict::less(
                        b@,
                        names@[j]@,
                    ) by {
                        if j == i {
                            assert(names@[j] == *name);
                        }
                    }
                }
            }
        }
        i = i + 1;
    }
    best
}

} // verus!
