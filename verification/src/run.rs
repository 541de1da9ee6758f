//! Assembling an invocation: which files it works on, what it runs on,
//! and the decisions a run makes between its reads and writes.
//!
//! The operations that reach the disk, the network or the clock are the
//! callers', handed in; what lives here is the order they go in and
//! what is made of their answers.

use vstd::prelude::*;
use crate::bib::BibConfig;
use crate::cli::Command;
use crate::config::{Layer, Origin};
use crate::discovery::{
    env_suffix, env_value, first_env_failure, found_by, prefixed, slot_view, EnvFailure,
};
use crate::event::{Diagnostic, Level};
use crate::pipeline::ResolveConfig;
use crate::resolution::{layer_wf, resolve_error, resolves_to, texts, ConfigError, Effective};

verus! {

/// The extension a file needs to be picked up from a directory.
pub const PDF_EXTENSION: &'static str = "pdf";

/// Whether `command` will change what is on disk rather than only
/// report on it.
pub open spec fn applying_spec(command: Command) -> bool {
    match command {
        Command::Rename { apply, .. } => apply,
        Command::Cache { clear, .. } => clear,
        Command::Bib { .. } | Command::Ledger { .. } => true,
        Command::Resolve { .. } | Command::Config { .. } => false,
    }
}

/// Whether `command` will change what is on disk rather than only
/// report on it.
pub fn applying(command: &Command) -> (r: bool)
    ensures
        r == applying_spec(*command),
{
    match command {
        Command::Rename { apply, .. } => *apply,
        Command::Cache { clear, .. } => *clear,
        Command::Bib { .. } | Command::Ledger { .. } => true,
        Command::Resolve { .. } | Command::Config { .. } => false,
    }
}

/// An error diagnostic carrying `message`.
pub fn error(message: String) -> (d: Diagnostic)
    ensures
        d.level == Level::Error,
        d.message@ == message@,
{
    Diagnostic { level: Level::Error, message }
}

/// A warning diagnostic carrying `message`.
pub fn warning(message: String) -> (d: Diagnostic)
    ensures
        d.level == Level::Warning,
        d.message@ == message@,
{
    Diagnostic { level: Level::Warning, message }
}

/// A run-log failure, at the level its consequence deserves: an error
/// when the run cannot go ahead without the log, a warning when losing
/// the record is the whole of the damage.
pub fn log_failure(mandatory: bool, message: String) -> (d: Diagnostic)
    ensures
        d.level == (if mandatory {
            Level::Error
        } else {
            Level::Warning
        }),
        d.message@ == message@,
{
    if mandatory {
        error(message)
    } else {
        warning(message)
    }
}

/// Where bibliography output goes, from `config`.
pub fn bib_config(config: &crate::resolution::Config) -> (b: BibConfig)
    ensures
        crate::resolution::text_of(b.path) == crate::resolution::text_of(config.bib_path),
        b.duplicates == config.duplicates,
        b.sidecars == config.sidecars,
{
    BibConfig {
        path: match &config.bib_path {
            Some(p) => Some(p.clone()),
            None => None,
        },
        duplicates: config.duplicates,
        sidecars: config.sidecars,
    }
}

/// What a run may do while resolving, from `config`.
pub fn resolving(config: &crate::resolution::Config) -> (r: ResolveConfig)
    ensures
        r.page_limit == config.page_limit,
        r.cache == config.cache,
{
    ResolveConfig { page_limit: config.page_limit, cache: config.cache }
}

/// Whether a rename run writes citations for a group configured with
/// `config`: only when it has somewhere to write them, a master file or
/// sidecars, so that a run that was never going to cite does not report
/// records too sparse to cite as skipped.
pub fn cites(config: &BibConfig) -> (r: bool)
    ensures
        r == (config.path is Some || config.sidecars),
{
    config.path.is_some() || config.sidecars
}

/// The directory the configuration search climbs from.
///
/// A path that names a directory is the starting point itself; anything
/// else starts at its parent, so `borax rename <dir>` and `borax rename
/// <dir>/paper.pdf` find the same override file. `paths` are as the user
/// typed them; `is_directory` answers whether one names a directory,
/// and `working` is where a run given no usable path starts. A parent
/// that is the empty path is no usable start.
pub open spec fn start_spec(paths: Seq<String>, first_is_directory: bool, working: Seq<char>) -> Seq<char> {
    if paths.len() == 0 {
        working
    } else if first_is_directory {
        paths[0]@
    } else {
        match crate::paths::parent_spec(paths[0]@) {
            Some(parent) => if parent.len() > 0 {
                parent
            } else {
                working
            },
            None => working,
        }
    }
}

/// The directory the configuration search climbs from.
pub fn start_directory<D: Fn(String) -> bool>(
    paths: &Vec<String>,
    is_directory: &D,
    working: &str,
) -> (r: String)
    requires
        forall|p: String| call_requires(*is_directory, (p,)),
    ensures
        paths@.len() == 0 ==> r@ == working@,
        paths@.len() > 0 ==> exists|answer: bool|
            #[trigger] call_ensures(*is_directory, (paths@[0],), answer) && r@ == start_spec(
                paths@,
                answer,
                working@,
            ),
{
    if paths.len() == 0 {
        return String::from_str(working);
    }
    let first = paths[0].clone();
    let ghost asked = first;
    let answer = is_directory(first);
    assert(call_ensures(*is_directory, (asked,), answer));
    if answer {
        return paths[0].clone();
    }
    match crate::paths::parent(paths[0].as_str()) {
        Some(parent) => {
            if parent.unicode_len() > 0 {
                parent
            } else {
                String::from_str(working)
            }
        },
        None => String::from_str(working),
    }
}

/// The first reach of each path in `reached`, in order: a path reached
/// again later is dropped.
pub open spec fn first_reaches(reached: Seq<Seq<char>>) -> Seq<Seq<char>>
    decreases reached.len(),
{
    if reached.len() == 0 {
        Seq::empty()
    } else {
        let kept = first_reaches(reached.drop_last());
        if kept.contains(reached.last()) {
            kept
        } else {
            kept.push(reached.last())
        }
    }
}

/// Everything each argument reached, one argument after another.
pub open spec fn all_reached(reached: Seq<Vec<String>>) -> Seq<Seq<char>>
    decreases reached.len(),
{
    if reached.len() == 0 {
        Seq::empty()
    } else {
        all_reached(reached.drop_last()) + texts(reached.last()@)
    }
}

fn holds(found: &Vec<String>, path: &str) -> (r: bool)
    ensures
        r == texts(found@).contains(path@),
{
    let mut i: usize = 0;
    while i < found.len()
        invariant
            i <= found@.len(),
            forall|j: int| 0 <= j < i ==> found@[j]@ != path@,
        decreases found@.len() - i,
    {
        if crate::text::same(found[i].as_str(), path) {
            assert(texts(found@)[i as int] == path@);
            return true;
        }
        i = i + 1;
    }
    assert forall|j: int| 0 <= j < texts(found@).len() implies texts(found@)[j] != path@ by {
        assert(texts(found@)[j] == found@[j]@);
    }
    false
}

/// The files a run works on, given what each of its arguments reached:
/// a directory the files below it with the extension [`PDF_EXTENSION`],
/// in order, and anything else itself.
///
/// Order is the order given, and a path reached twice appears once, at
/// the position it was first reached.
pub fn inputs(reached: &Vec<Vec<String>>) -> (r: Vec<String>)
    ensures
        texts(r@) == first_reaches(all_reached(reached@)),
{
    let mut collected: Vec<String> = Vec::new();
    let mut i: usize = 0;
    assert(reached@.take(0) =~= Seq::<Vec<String>>::empty());
    while i < reached.len()
        invariant
            i <= reached@.len(),
            texts(collected@) == first_reaches(all_reached(reached@.take(i as int))),
        decreases reached@.len() - i,
    {
        let ghost before = all_reached(reached@.take(i as int));
        let group = &reached[i];
        let mut j: usize = 0;
        assert(before + texts(group@).take(0) =~= before);
        while j < group.len()
            invariant
                j <= group@.len(),
                texts(collected@) == first_reaches(before + texts(group@).take(j as int)),
            decreases group@.len() - j,
        {
            let ghost upto = before + texts(group@).take(j as int);
            let ghost next = before + texts(group@).take(j + 1);
            assert(next.drop_last() =~= upto);
            assert(next.last() == group@[j as int]@);
            if !holds(&collected, group[j].as_str()) {
                let ghost was = collected@;
                collected.push(group[j].clone());
                assert(texts(collected@) =~= texts(was).push(group@[j as int]@));
            }
            j = j + 1;
        }
        proof {
            assert(texts(group@).take(j as int) =~= texts(group@));
            assert(reached@.take(i + 1).drop_last() =~= reached@.take(i as int));
            assert(reached@.take(i + 1).last() == reached@[i as int]);
        }
        i = i + 1;
    }
    assert(reached@.take(i as int) =~= reached@);
    collected
}

/// The directory holding the file at `path`: its parent, or the empty
/// path when it has none.
pub open spec fn directory_of(path: Seq<char>) -> Seq<char> {
    match crate::paths::parent_spec(path) {
        Some(d) => d,
        None => Seq::empty(),
    }
}

/// A group of files as text: its directory and its files.
pub type GroupView = (Seq<char>, Seq<Seq<char>>);

/// The position of the group for directory `d` in `groups`, or -1.
pub open spec fn group_index(groups: Seq<GroupView>, d: Seq<char>) -> int
    decreases groups.len(),
{
    if groups.len() == 0 {
        -1
    } else if groups.last().0 == d {
        let k = group_index(groups.drop_last(), d);
        if k >= 0 {
            k
        } else {
            groups.len() - 1
        }
    } else {
        group_index(groups.drop_last(), d)
    }
}

proof fn lemma_group_index(groups: Seq<GroupView>, d: Seq<char>)
    ensures
        -1 <= group_index(groups, d) < groups.len(),
        group_index(groups, d) >= 0 ==> groups[group_index(groups, d)].0 == d,
        group_index(groups, d) >= 0 ==> forall|m: int|
            0 <= m < group_index(groups, d) ==> groups[m].0 != d,
        group_index(groups, d) < 0 ==> forall|m: int| 0 <= m < groups.len() ==> groups[m].0 != d,
    decreases groups.len(),
{
    if groups.len() > 0 {
        lemma_group_index(groups.drop_last(), d);
        assert forall|m: int| 0 <= m < groups.len() - 1 implies groups.drop_last()[m] == groups[m] by {}
    }
}

/// `paths` grouped by the directory holding them, in the order those
/// directories are first reached, each group's files in the order
/// given.
pub open spec fn grouped(paths: Seq<Seq<char>>) -> Seq<GroupView>
    decreases paths.len(),
{
    if paths.len() == 0 {
        Seq::empty()
    } else {
        let groups = grouped(paths.drop_last());
        let p = paths.last();
        let d = directory_of(p);
        let k = group_index(groups, d);
        if k >= 0 {
            groups.update(k, (d, groups[k].1.push(p)))
        } else {
            groups.push((d, seq![p]))
        }
    }
}

/// Groups as text.
pub open spec fn groups_view(groups: Seq<(String, Vec<String>)>) -> Seq<GroupView> {
    groups.map_values(|g: (String, Vec<String>)| (g.0@, texts(g.1@)))
}

/// The position of the group for `directory` in `groups`.
fn find_group(groups: &Vec<(String, Vec<String>)>, directory: &str) -> (r: Option<usize>)
    ensures
        match r {
            Some(k) => k as int == group_index(groups_view(groups@), directory@) && k
                < groups@.len() && groups@[k as int].0@ == directory@,
            None => group_index(groups_view(groups@), directory@) < 0,
        },
{
    proof {
        lemma_group_index(groups_view(groups@), directory@);
    }
    let mut i: usize = 0;
    while i < groups.len()
        invariant
            i <= groups@.len(),
            forall|m: int| 0 <= m < i ==> groups@[m].0@ != directory@,
            -1 <= group_index(groups_view(groups@), directory@) < groups@.len(),
            group_index(groups_view(groups@), directory@) >= 0 ==> groups_view(groups@)[group_index(
                groups_view(groups@),
                directory@,
            )].0 == directory@,
            group_index(groups_view(groups@), directory@) >= 0 ==> forall|m: int|
                0 <= m < group_index(groups_view(groups@), directory@) ==> groups_view(groups@)[m].0
                    != directory@,
            group_index(groups_view(groups@), directory@) < 0 ==> forall|m: int|
                0 <= m < groups@.len() ==> groups_view(groups@)[m].0 != directory@,
        decreases groups@.len() - i,
    {
        if crate::text::same(groups[i].0.as_str(), directory) {
            assert(groups_view(groups@)[i as int].0 == directory@);
            assert(group_index(groups_view(groups@), directory@) == i);
            return Some(i);
        }
        i = i + 1;
    }
    None
}

/// `paths` grouped by the directory holding them, in the order those
/// directories are first reached.
///
/// Nearly everything renaming does is per directory, and so is the
/// configuration a file's own override file chooses; working a group at
/// a time is what lets each group use its own. A run over one directory
/// yields a single group.
pub fn by_directory(paths: &Vec<String>) -> (r: Vec<(String, Vec<String>)>)
    ensures
        groups_view(r@) == grouped(texts(paths@)),
{
    let mut groups: Vec<(String, Vec<String>)> = Vec::new();
    let mut i: usize = 0;
    assert(texts(paths@).take(0) =~= Seq::<Seq<char>>::empty());
    while i < paths.len()
        invariant
            i <= paths@.len(),
            groups_view(groups@) == grouped(texts(paths@).take(i as int)),
        decreases paths@.len() - i,
    {
        let path = &paths[i];
        let directory = match crate::paths::parent(path.as_str()) {
            Some(d) => d,
            None => String::new(),
        };
        let ghost upto = texts(paths@).take(i + 1);
        proof {
            assert(upto.drop_last() =~= texts(paths@).take(i as int));
            assert(upto.last() == path@);
            assert(directory@ == directory_of(path@));
        }
        let ghost before = groups_view(groups@);
        match find_group(&groups, directory.as_str()) {
            Some(k) => {
                let ghost old = groups@;
                let (d, mut files) = groups.remove(k);
                let ghost old_files = files@;
                files.push(path.clone());
                proof {
                    assert(texts(files@) =~= texts(old_files).push(path@));
                }
                groups.insert(k, (d, files));
                proof {
                    let x = (d, files);
                    assert(old.remove(k as int).insert(k as int, x) =~= old.update(k as int, x));
                    assert(groups_view(old.update(k as int, x)) =~= groups_view(old).update(
                        k as int,
                        (d@, texts(files@)),
                    ));
                    assert(groups_view(groups@) =~= before.update(
                        k as int,
                        (directory@, before[k as int].1.push(path@)),
                    ));
                }
            },
            None => {
                let single = vec![path.clone()];
                assert(texts(single@) =~= seq![path@]);
                let ghost old = groups@;
                groups.push((directory, single));
                proof {
                    assert(groups_view(groups@) =~= groups_view(old).push((directory@, texts(single@))));
                    assert(groups_view(groups@) =~= before.push((directory_of(path@), seq![path@])));
                }
            },
        }
        i = i + 1;
    }
    assert(texts(paths@).take(i as int) =~= texts(paths@));
    groups
}

/// Whether the file at `path` is there, when `existing` lists the names
/// in a directory: the directory holding it lists its name. A path
/// naming no file in any directory, a bare root, is not there.
pub fn is_present<E: Fn(String) -> Vec<String>>(path: &str, existing: &E) -> (r: bool)
    requires
        forall|d: String| call_requires(*existing, (d,)),
    ensures
        match (crate::paths::parent_spec(path@), crate::paths::file_name_spec(path@)) {
            (Some(d), Some(name)) => exists|ask: String, names: Vec<String>|
                ask@ == d && #[trigger] call_ensures(*existing, (ask,), names) && r == texts(
                    names@,
                ).contains(name),
            _ => !r,
        },
{
    let directory = crate::paths::parent(path);
    let name = crate::paths::file_name(path);
    match (directory, name) {
        (Some(d), Some(n)) => {
            let ghost asked = d;
            let names = existing(d);
            assert(call_ensures(*existing, (asked,), names));
            holds(&names, n.as_str())
        },
        _ => false,
    }
}

/// Whether `pair` is the layer the one variable `var` makes: named
/// after the variable, without its prefix, and setting what the
/// variable sets and nothing else.
pub open spec fn var_layer(var: (String, String), pair: (Origin, Layer)) -> bool {
    &&& pair.0 matches Origin::Env(n) && n@ == env_suffix(var.0@)
    &&& crate::config::no_tables(pair.1)
    &&& forall|key: crate::config::SettingKey|
        #[trigger] slot_view(pair.1, key) == env_value(seq![var], key)
}

/// Whether `layers` are, one for one and in order, the layers the
/// prefixed variables of `env` make.
pub open spec fn env_layers_ok(env: Seq<(String, String)>, layers: Seq<(Origin, Layer)>) -> bool
    decreases env.len(),
{
    if env.len() == 0 {
        layers.len() == 0
    } else if prefixed(env.last().0@) {
        &&& layers.len() > 0
        &&& var_layer(env.last(), layers.last())
        &&& env_layers_ok(env.drop_last(), layers.drop_last())
    } else {
        env_layers_ok(env.drop_last(), layers)
    }
}

/// Whether `err` is what the environment `env` is refused with.
pub open spec fn env_refusal(env: Seq<(String, String)>, err: ConfigError) -> bool {
    match first_env_failure(env) {
        Some(EnvFailure::Unknown(suffix)) => err matches ConfigError::UnknownEnv { name }
            && name@ == suffix,
        Some(EnvFailure::Invalid(k, suffix, m)) => err matches ConfigError::Invalid {
            key,
            origin: Origin::Env(n),
            message,
        } && key@ == crate::config::key_text(k) && n@ == suffix && message@ == m,
        None => false,
    }
}

proof fn lemma_single_failure(var: (String, String))
    ensures
        first_env_failure(seq![var]) == crate::discovery::var_failure(var.0@, var.1@),
{
    assert(seq![var].skip(1) =~= Seq::<(String, String)>::empty());
    assert(seq![var][0] == var);
    assert(first_env_failure(Seq::<(String, String)>::empty()) is None);
}

/// One layer for each variable of the environment `env` that carries
/// the prefix, in order, each named after its variable, so `borax
/// config` names the variable a value came from.
pub fn env_layers(env: &Vec<(String, String)>) -> (r: Result<Vec<(Origin, Layer)>, ConfigError>)
    ensures
        match r {
            Ok(layers) => first_env_failure(env@) is None && env_layers_ok(env@, layers@),
            Err(err) => env_refusal(env@, err),
        },
{
    let mut layers: Vec<(Origin, Layer)> = Vec::new();
    let mut i: usize = 0;
    assert(env@.skip(0) =~= env@);
    assert(env@.take(0) =~= Seq::<(String, String)>::empty());
    while i < env.len()
        invariant
            i <= env@.len(),
            first_env_failure(env@) == first_env_failure(env@.skip(i as int)),
            env_layers_ok(env@.take(i as int), layers@),
            forall|m: int| 0 <= m < layers@.len() ==> crate::config::no_tables(#[trigger] layers@[m].1),
        decreases env@.len() - i,
    {
        let ghost var = env@[i as int];
        proof {
            let rest = env@.skip(i as int);
            assert(rest[0] == var);
            assert(rest.skip(1) =~= env@.skip(i + 1));
            assert(env@.take(i + 1).drop_last() =~= env@.take(i as int));
            assert(env@.take(i + 1).last() == var);
            lemma_single_failure(var);
        }
        assert(crate::config::ENV_PREFIX@ == "BORAX_"@);
        if crate::text::has_prefix(env[i].0.as_str(), crate::config::ENV_PREFIX) {
            let single = vec![(env[i].0.clone(), env[i].1.clone())];
            assert(single@ =~= seq![var]);
            match crate::discovery::layer_from_env(&single) {
                Ok(layer) => {
                    let suffix = crate::text::tail(
                        env[i].0.as_str(),
                        crate::config::ENV_PREFIX.unicode_len(),
                    );
                    let ghost before = layers@;
                    layers.push((Origin::Env(suffix), layer));
                    proof {
                        assert(layers@.drop_last() =~= before);
                        assert(var_layer(var, layers@.last()));
                    }
                },
                Err(err) => {
                    return Err(err);
                },
            }
        }
        i = i + 1;
    }
    assert(env@.take(i as int) =~= env@);
    assert(env@.skip(i as int) =~= Seq::<(String, String)>::empty());
    Ok(layers)
}

/// Whether `part` is what loading the configuration file at `path`
/// through `load` can contribute: nothing when there is no file there,
/// or the one layer it holds, named after the file as the global file
/// when `global` is set and as a directory override otherwise.
pub open spec fn file_part<L: Fn(String) -> Result<Option<Layer>, ConfigError>>(
    load: L,
    path: Seq<char>,
    global: bool,
    part: Seq<(Origin, Layer)>,
) -> bool {
    exists|p: String, found: Option<Layer>|
        p@ == path && #[trigger] call_ensures(load, (p,), Ok::<Option<Layer>, ConfigError>(found))
            && match found {
            None => part.len() == 0,
            Some(layer) => part.len() == 1 && part[0].1 == layer && if global {
                part[0].0 matches Origin::GlobalFile(q) && q@ == path
            } else {
                part[0].0 matches Origin::DirectoryFile(q) && q@ == path
            },
        }
}

/// What the global configuration file the environment `env` implies
/// can contribute.
pub open spec fn global_part<L: Fn(String) -> Result<Option<Layer>, ConfigError>>(
    env: Seq<(String, String)>,
    load: L,
    part: Seq<(Origin, Layer)>,
) -> bool {
    match crate::discovery::global_config_spec(env) {
        None => part.len() == 0,
        Some(g) => file_part(load, g, true, part),
    }
}

/// What the nearest override file at or above `start` can contribute,
/// found by asking `present`.
pub open spec fn override_part<
    P: Fn(String) -> bool,
    L: Fn(String) -> Result<Option<Layer>, ConfigError>,
>(start: Seq<char>, present: P, load: L, part: Seq<(Origin, Layer)>) -> bool {
    exists|found: Option<Seq<char>>|
        #[trigger] found_by(start, present, found) && match found {
            None => part.len() == 0,
            Some(f) => file_part(load, f, false, part),
        }
}

/// Whether `layers` are the layers a run started in `start` stacks,
/// lowest precedence first: the global file's, the nearest override
/// file's, one for each variable of the environment, and `flags`, with
/// the built-in defaults below them all.
pub open spec fn assembled<
    P: Fn(String) -> bool,
    L: Fn(String) -> Result<Option<Layer>, ConfigError>,
>(
    start: Seq<char>,
    flags: Seq<(Origin, Layer)>,
    env: Seq<(String, String)>,
    present: P,
    load: L,
    layers: Seq<(Origin, Layer)>,
) -> bool {
    exists|g: Seq<(Origin, Layer)>, o: Seq<(Origin, Layer)>, v: Seq<(Origin, Layer)>|
        #![trigger global_part(env, load, g), override_part(start, present, load, o), env_layers_ok(env, v)]
        global_part(env, load, g) && override_part(start, present, load, o) && env_layers_ok(env, v)
            && layers == g + o + v + flags
}

/// Whether `load` can refuse the file at `path` with `err`.
pub open spec fn load_refused<L: Fn(String) -> Result<Option<Layer>, ConfigError>>(
    load: L,
    path: Seq<char>,
    err: ConfigError,
) -> bool {
    exists|p: String|
        p@ == path && #[trigger] call_ensures(load, (p,), Err::<Option<Layer>, ConfigError>(err))
}

/// Whether `err` is what assembling a run's configuration can end in:
/// a configuration file that is there and will not load, an environment
/// variable refused, or the merge refusing what the layers say.
pub open spec fn config_refusal<
    P: Fn(String) -> bool,
    L: Fn(String) -> Result<Option<Layer>, ConfigError>,
>(
    start: Seq<char>,
    flags: Seq<(Origin, Layer)>,
    env: Seq<(String, String)>,
    present: P,
    load: L,
    err: ConfigError,
) -> bool {
    ||| (crate::discovery::global_config_spec(env) matches Some(g) && load_refused(load, g, err))
    ||| exists|f: Seq<char>| #[trigger] found_by(start, present, Some(f)) && load_refused(load, f, err)
    ||| env_refusal(env, err)
    ||| exists|layers: Seq<(Origin, Layer)>|
        #[trigger] assembled(start, flags, env, present, load, layers) && resolve_error(err, layers)
}

/// An environment with no prefixed variable makes no layer.
proof fn lemma_no_prefixed_no_layers(env: Seq<(String, String)>, layers: Seq<(Origin, Layer)>)
    requires
        forall|i: int| 0 <= i < env.len() ==> !crate::discovery::prefixed(#[trigger] env[i].0@),
        env_layers_ok(env, layers),
    ensures
        layers.len() == 0,
    decreases env.len(),
{
    if env.len() > 0 {
        assert(!crate::discovery::prefixed(env[env.len() - 1].0@));
        assert forall|i: int| 0 <= i < env.drop_last().len() implies !crate::discovery::prefixed(
            #[trigger] env.drop_last()[i].0@,
        ) by {
            assert(env.drop_last()[i] == env[i]);
        }
        lemma_no_prefixed_no_layers(env.drop_last(), layers);
    }
}

/// A run with no configuration file anywhere and no variable carrying
/// the prefix stacks the flags' layers alone: whatever `load` is asked
/// answers that no file is there, and no variable of `env` is borax's.
pub proof fn with_no_files_and_no_variables_the_flags_alone_count<
    P: Fn(String) -> bool,
    L: Fn(String) -> Result<Option<Layer>, ConfigError>,
>(
    start: Seq<char>,
    flags: Seq<(Origin, Layer)>,
    env: Seq<(String, String)>,
    present: P,
    load: L,
    layers: Seq<(Origin, Layer)>,
)
    requires
        forall|i: int| 0 <= i < env.len() ==> !crate::discovery::prefixed(#[trigger] env[i].0@),
        forall|p: String, out: Result<Option<Layer>, ConfigError>|
            #[trigger] call_ensures(load, (p,), out) ==> out == Ok::<Option<Layer>, ConfigError>(None),
        assembled(start, flags, env, present, load, layers),
    ensures
        layers == flags,
{
    let (g, o, v) = choose|g: Seq<(Origin, Layer)>, o: Seq<(Origin, Layer)>, v: Seq<(Origin, Layer)>|
        #![trigger global_part(env, load, g), override_part(start, present, load, o), env_layers_ok(env, v)]
        global_part(env, load, g) && override_part(start, present, load, o) && env_layers_ok(env, v)
            && layers == g + o + v + flags;
    lemma_no_prefixed_no_layers(env, v);
    assert(g.len() == 0) by {
        if let Some(path) = crate::discovery::global_config_spec(env) {
            let (p, found) = choose|p: String, found: Option<Layer>|
                p@ == path && #[trigger] call_ensures(
                    load,
                    (p,),
                    Ok::<Option<Layer>, ConfigError>(found),
                ) && (found is None ==> g.len() == 0);
            assert(Ok::<Option<Layer>, ConfigError>(found) == Ok::<Option<Layer>, ConfigError>(None));
        }
    }
    assert(o.len() == 0) by {
        let found = choose|found: Option<Seq<char>>|
            #[trigger] found_by(start, present, found) && match found {
                None => o.len() == 0,
                Some(f) => file_part(load, f, false, o),
            };
        if let Some(f) = found {
            let (p, x) = choose|p: String, x: Option<Layer>|
                p@ == f && #[trigger] call_ensures(load, (p,), Ok::<Option<Layer>, ConfigError>(x))
                    && (x is None ==> o.len() == 0);
            assert(Ok::<Option<Layer>, ConfigError>(x) == Ok::<Option<Layer>, ConfigError>(None));
        }
    }
    assert(layers =~= flags);
}

proof fn lemma_env_layers_wf(env: Seq<(String, String)>, layers: Seq<(Origin, Layer)>)
    requires
        env_layers_ok(env, layers),
    ensures
        forall|m: int| 0 <= m < layers.len() ==> layer_wf(#[trigger] layers[m].1),
    decreases env.len(),
{
    if env.len() > 0 {
        if prefixed(env.last().0@) {
            lemma_env_layers_wf(env.drop_last(), layers.drop_last());
            assert forall|m: int| 0 <= m < layers.len() implies layer_wf(#[trigger] layers[m].1) by {
                if m < layers.len() - 1 {
                    assert(layers.drop_last()[m] == layers[m]);
                }
            }
        } else {
            lemma_env_layers_wf(env.drop_last(), layers);
        }
    }
}

/// The layer the configuration file at `path` contributes, through
/// `load`, named after the file.
fn load_file<L: Fn(String) -> Result<Option<Layer>, ConfigError>>(
    path: String,
    global: bool,
    load: &L,
) -> (r: Result<Vec<(Origin, Layer)>, ConfigError>)
    requires
        forall|p: String| call_requires(*load, (p,)),
    ensures
        match r {
            Ok(part) => file_part(*load, path@, global, part@),
            Err(err) => load_refused(*load, path@, err),
        },
{
    let copy = path.clone();
    let ghost asked = copy;
    let loaded = load(copy);
    assert(call_ensures(*load, (asked,), loaded));
    match loaded {
        Ok(found) => {
            let ghost gf = found;
            assert(call_ensures(*load, (asked,), Ok::<Option<Layer>, ConfigError>(gf)));
            match found {
                Some(layer) => {
                    let origin = if global {
                        Origin::GlobalFile(path)
                    } else {
                        Origin::DirectoryFile(path)
                    };
                    let part = vec![(origin, layer)];
                    Ok(part)
                },
                None => Ok(Vec::new()),
            }
        },
        Err(err) => {
            let ghost ge = err;
            assert(call_ensures(*load, (asked,), Err::<Option<Layer>, ConfigError>(ge)));
            Err(err)
        },
    }
}

/// The configuration a run started in `start` uses.
///
/// The layers, lowest precedence first: the built-in defaults, the
/// global configuration file, the nearest override file at or above
/// `start`, one layer for each variable of the environment, and
/// `flags`. `environment` is the process environment as name/value
/// pairs; `present` answers whether something is at a path, and `load`
/// reads the configuration file at a path into a layer, `None` when no
/// file is there. A configuration file that is there and will not load
/// ends the run.
pub fn config_for<P, L>(
    start: &str,
    flags: Vec<(Origin, Layer)>,
    environment: &Vec<(String, String)>,
    present: &P,
    load: &L,
) -> (r: Result<Effective, ConfigError>) where
    P: Fn(String) -> bool,
    L: Fn(String) -> Result<Option<Layer>, ConfigError>,

    requires
        forall|p: String| call_requires(*present, (p,)),
        forall|p: String| call_requires(*load, (p,)),
        forall|p: String, out: Result<Option<Layer>, ConfigError>|
            #[trigger] call_ensures(*load, (p,), out) ==> (out matches Ok(Some(l)) ==> layer_wf(l)),
        forall|i: int| 0 <= i < flags@.len() ==> layer_wf(#[trigger] flags@[i].1),
    ensures
        match r {
            Ok(e) => exists|layers: Seq<(Origin, Layer)>|
                #[trigger] assembled(start@, flags@, environment@, *present, *load, layers)
                    && resolves_to(e, layers),
            Err(err) => config_refusal(start@, flags@, environment@, *present, *load, err),
        },
{
    let g = match crate::discovery::global_config_path(environment) {
        Some(path) => match load_file(path, true, load) {
            Ok(part) => part,
            Err(err) => return Err(err),
        },
        None => Vec::new(),
    };
    assert(global_part(environment@, *load, g@));
    let found = crate::discovery::nearest_override(start, present);
    let ghost seen = crate::resolution::text_of(found);
    let o = match found {
        Some(path) => match load_file(path, false, load) {
            Ok(part) => part,
            Err(err) => {
                assert(found_by(start@, *present, seen));
                return Err(err);
            },
        },
        None => Vec::new(),
    };
    assert(override_part(start@, *present, *load, o@));
    let v = match env_layers(environment) {
        Ok(v) => v,
        Err(err) => return Err(err),
    };
    proof {
        lemma_env_layers_wf(environment@, v@);
    }
    let ghost (gg, go, gv, gf) = (g@, o@, v@, flags@);
    let mut layers = g;
    let mut o = o;
    let mut v = v;
    let mut flags = flags;
    layers.append(&mut o);
    layers.append(&mut v);
    layers.append(&mut flags);
    let ghost all = layers@;
    assert(all == gg + go + gv + gf);
    assert(assembled(start@, gf, environment@, *present, *load, all));
    assert forall|i: int| 0 <= i < all.len() implies layer_wf(#[trigger] all[i].1) by {
        if i < gg.len() {
        } else if i < gg.len() + go.len() {
        } else if i < gg.len() + go.len() + gv.len() {
            assert(all[i] == gv[i - gg.len() - go.len()]);
        } else {
            assert(all[i] == gf[i - gg.len() - go.len() - gv.len()]);
        }
    }
    crate::resolution::resolve(layers)
}

/// Whether `e` is the configuration a run started in `start` resolves
/// to when its flags are those `settings` gives.
pub open spec fn configured_from<
    P: Fn(String) -> bool,
    L: Fn(String) -> Result<Option<Layer>, ConfigError>,
>(
    e: Effective,
    start: Seq<char>,
    settings: crate::cli::Settings,
    env: Seq<(String, String)>,
    present: P,
    load: L,
) -> bool {
    exists|flags: Seq<(Origin, Layer)>, layers: Seq<(Origin, Layer)>|
        #![trigger crate::cli::all_correspond(flags, crate::cli::flags_given(settings)), assembled(start, flags, env, present, load, layers)]
        crate::cli::all_correspond(flags, crate::cli::flags_given(settings)) && assembled(
            start,
            flags,
            env,
            present,
            load,
            layers,
        ) && resolves_to(e, layers)
}

/// Whether `err` is what resolving a run started in `start`, with the
/// flags `settings` gives, can end in.
pub open spec fn refused_from<
    P: Fn(String) -> bool,
    L: Fn(String) -> Result<Option<Layer>, ConfigError>,
>(
    err: ConfigError,
    start: Seq<char>,
    settings: crate::cli::Settings,
    env: Seq<(String, String)>,
    present: P,
    load: L,
) -> bool {
    exists|flags: Seq<(Origin, Layer)>|
        #[trigger] crate::cli::all_correspond(flags, crate::cli::flags_given(settings))
            && config_refusal(start, flags, env, present, load, err)
}

/// [`config_for`] with the flags `settings` gives.
fn config_with_flags<P, L>(
    start: &str,
    settings: &crate::cli::Settings,
    environment: &Vec<(String, String)>,
    present: &P,
    load: &L,
) -> (r: Result<Effective, ConfigError>) where
    P: Fn(String) -> bool,
    L: Fn(String) -> Result<Option<Layer>, ConfigError>,

    requires
        forall|p: String| call_requires(*present, (p,)),
        forall|p: String| call_requires(*load, (p,)),
        forall|p: String, out: Result<Option<Layer>, ConfigError>|
            #[trigger] call_ensures(*load, (p,), out) ==> (out matches Ok(Some(l)) ==> layer_wf(l)),
    ensures
        match r {
            Ok(e) => configured_from(e, start@, *settings, environment@, *present, *load),
            Err(err) => refused_from(err, start@, *settings, environment@, *present, *load),
        },
{
    let flags = crate::cli::flag_layers(settings);
    let ghost gf = flags@;
    assert forall|i: int| 0 <= i < gf.len() implies layer_wf(#[trigger] gf[i].1) by {
        assert(crate::cli::corresponds(gf[i], crate::cli::flags_given(*settings)[i]));
    }
    let r = config_for(start, flags, environment, present, load);
    match &r {
        Ok(e) => {
            assert(configured_from(*e, start@, *settings, environment@, *present, *load));
        },
        Err(err) => {
            assert(refused_from(*err, start@, *settings, environment@, *present, *load));
        },
    }
    r
}

/// The configuration each input of a run runs under, and the run's own.
///
/// Override files are discovered upward from each input file's own
/// directory, so an invocation spanning two trees applies each tree's
/// overrides to its own files; every other layer is the same
/// throughout. The settings that decide which services a run talks to
/// and how are the run's own, resolved from the working directory.
#[derive(Debug)]
pub struct Configs {
    by_directory: crate::dict::Dict<Effective>,
    run: Effective,
}

impl Configs {
    #[verifier::type_invariant]
    spec fn well_formed(self) -> bool {
        self.by_directory.wf()
    }

    /// The configuration resolved for files in `directory`, if one was.
    pub closed spec fn resolved_for(&self, directory: Seq<char>) -> Option<Effective> {
        self.by_directory.get_spec(directory)
    }

    /// The configuration for the run as a whole.
    pub closed spec fn run_config(&self) -> Effective {
        self.run
    }

    /// Resolve the configuration for every directory `paths` touches,
    /// and the run's own by climbing from `working`.
    ///
    /// `paths` are the input files after directory expansion, so the
    /// directory a file belongs to is its parent; a path with no parent
    /// touches none. Each distinct directory is resolved once however
    /// many files share it, with the layers [`config_for`] stacks and
    /// the flags `settings` gives. A configuration that will not
    /// resolve, in any of the directories, ends the run.
    pub fn resolve<P, L>(
        paths: &Vec<String>,
        working: &str,
        settings: &crate::cli::Settings,
        environment: &Vec<(String, String)>,
        present: &P,
        load: &L,
    ) -> (r: Result<Configs, ConfigError>) where
        P: Fn(String) -> bool,
        L: Fn(String) -> Result<Option<Layer>, ConfigError>,

        requires
            forall|p: String| call_requires(*present, (p,)),
            forall|p: String| call_requires(*load, (p,)),
            forall|p: String, out: Result<Option<Layer>, ConfigError>|
                #[trigger] call_ensures(*load, (p,), out) ==> (out matches Ok(Some(l)) ==> layer_wf(
                    l,
                )),
        ensures
            match r {
                Ok(c) => {
                    &&& configured_from(
                        c.run_config(),
                        working@,
                        *settings,
                        environment@,
                        *present,
                        *load,
                    )
                    &&& forall|d: Seq<char>|
                        #![trigger c.resolved_for(d)]
                        c.resolved_for(d) is Some <==> exists|i: int|
                            0 <= i < paths@.len() && crate::paths::parent_spec(
                                #[trigger] paths@[i]@,
                            ) == Some(d)
                    &&& forall|d: Seq<char>|
                        #![trigger c.resolved_for(d)]
                        c.resolved_for(d) matches Some(e) ==> configured_from(
                            e,
                            d,
                            *settings,
                            environment@,
                            *present,
                            *load,
                        )
                },
                Err(err) => exists|start: Seq<char>|
                    #[trigger] refused_from(err, start, *settings, environment@, *present, *load),
            },
    {
        let mut by_directory: crate::dict::Dict<Effective> = crate::dict::Dict::new();
        let mut i: usize = 0;
        while i < paths.len()
            invariant
                i <= paths@.len(),
                by_directory.wf(),
                forall|p: String| call_requires(*present, (p,)),
                forall|p: String| call_requires(*load, (p,)),
                forall|p: String, out: Result<Option<Layer>, ConfigError>|
                    #[trigger] call_ensures(*load, (p,), out) ==> (out matches Ok(Some(l))
                        ==> layer_wf(l)),
                forall|d: Seq<char>|
                    #![trigger by_directory.get_spec(d)]
                    by_directory.get_spec(d) is Some <==> exists|j: int|
                        0 <= j < i && crate::paths::parent_spec(#[trigger] paths@[j]@) == Some(d),
                forall|d: Seq<char>|
                    #![trigger by_directory.get_spec(d)]
                    by_directory.get_spec(d) matches Some(e) ==> configured_from(
                        e,
                        d,
                        *settings,
                        environment@,
                        *present,
                        *load,
                    ),
            decreases paths@.len() - i,
        {
            match crate::paths::parent(paths[i].as_str()) {
                Some(directory) => {
                    if !by_directory.contains_key(directory.as_str()) {
                        let effective = match config_with_flags(
                            directory.as_str(),
                            settings,
                            environment,
                            present,
                            load,
                        ) {
                            Ok(e) => e,
                            Err(err) => {
                                return Err(err);
                            },
                        };
                        let ghost dv = directory@;
                        by_directory.insert(directory, effective);
                        assert forall|d: Seq<char>|
                            #![trigger by_directory.get_spec(d)]
                            by_directory.get_spec(d) is Some <==> exists|j: int|
                                0 <= j < i + 1 && crate::paths::parent_spec(
                                    #[trigger] paths@[j]@,
                                ) == Some(d) by {
                            if d == dv {
                                assert(crate::paths::parent_spec(paths@[i as int]@) == Some(d));
                            }
                        }
                    } else {
                        assert forall|d: Seq<char>|
                            #![trigger by_directory.get_spec(d)]
                            by_directory.get_spec(d) is Some <==> exists|j: int|
                                0 <= j < i + 1 && crate::paths::parent_spec(
                                    #[trigger] paths@[j]@,
                                ) == Some(d) by {
                            if d == directory@ {
                                assert(crate::paths::parent_spec(paths@[i as int]@) == Some(d));
                            }
                        }
                    }
                },
                None => {},
            }
            i = i + 1;
        }
        let run = match config_with_flags(working, settings, environment, present, load) {
            Ok(e) => e,
            Err(err) => {
                return Err(err);
            },
        };
        Ok(Configs { by_directory, run })
    }

    /// One configuration for every path: what a caller with nothing to
    /// discover uses.
    pub fn uniform(effective: Effective) -> (c: Configs)
        ensures
            c.run_config() == effective,
            forall|d: Seq<char>| #[trigger] c.resolved_for(d) is None,
    {
        Configs { by_directory: crate::dict::Dict::new(), run: effective }
    }

    /// The configuration files in `directory` run under: the one
    /// resolved for it, or the run's own when none was.
    pub fn for_directory(&self, directory: &str) -> (r: &Effective)
        ensures
            *r == match self.resolved_for(directory@) {
                Some(e) => e,
                None => self.run_config(),
            },
    {
        proof {
            use_type_invariant(self);
        }
        match self.by_directory.get(directory) {
            Some(e) => e,
            None => &self.run,
        }
    }

    /// The configuration the file at `path` runs under: its directory's,
    /// or the run's own when the path has no directory or its directory
    /// was never resolved.
    pub fn for_path(&self, path: &str) -> (r: &Effective)
        ensures
            *r == match crate::paths::parent_spec(path@) {
                Some(d) => match self.resolved_for(d) {
                    Some(e) => e,
                    None => self.run_config(),
                },
                None => self.run_config(),
            },
    {
        match crate::paths::parent(path) {
            Some(directory) => self.for_directory(directory.as_str()),
            None => &self.run,
        }
    }

    /// The configuration for the run as a whole, resolved from the
    /// working directory: what `borax config` prints.
    pub fn run(&self) -> (r: &Effective)
        ensures
            *r == self.run_config(),
    {
        &self.run
    }
}

/// The entries of a template table other than its `default`.
pub open spec fn non_default(entries: Seq<(String, String)>) -> Seq<(String, String)>
    decreases entries.len(),
{
    if entries.len() == 0 {
        Seq::empty()
    } else if entries.last().0@ == "default"@ {
        non_default(entries.drop_last())
    } else {
        non_default(entries.drop_last()).push(entries.last())
    }
}

/// Whether compiling the template `source` through `compile` can give
/// `compiled`.
pub open spec fn compiles_to<T, C: Fn(String) -> Result<T, String>>(
    compile: C,
    source: Seq<char>,
    compiled: T,
) -> bool {
    exists|s: String| s@ == source && #[trigger] call_ensures(compile, (s,), Ok::<T, String>(compiled))
}

/// Whether compiling the template `source` through `compile` can fail
/// with `failure`.
pub open spec fn fails_with<T, C: Fn(String) -> Result<T, String>>(
    compile: C,
    source: Seq<char>,
    failure: Seq<char>,
) -> bool {
    exists|s: String, f: String|
        s@ == source && f@ == failure && #[trigger] call_ensures(compile, (s,), Err::<T, String>(f))
}

/// Whether `message` reports the `default` template of `map` failing
/// to compile.
pub open spec fn default_fails<T, C: Fn(String) -> Result<T, String>>(
    map: crate::dict::Dict<String>,
    prefix: Seq<char>,
    compile: C,
    message: Seq<char>,
) -> bool {
    match map.get_spec("default"@) {
        Some(source) => exists|f: Seq<char>|
            #[trigger] fails_with(compile, source@, f) && message == prefix + ".default: "@ + f,
        None => false,
    }
}

/// Whether `message` is what compiling the template table `map`, which
/// goes by `prefix` in a configuration file, can be refused with: its
/// `default` unset, a key naming no entry type, or a template that will
/// not compile, each naming the offending key.
pub open spec fn template_refusal<T, C: Fn(String) -> Result<T, String>>(
    map: crate::dict::Dict<String>,
    prefix: Seq<char>,
    compile: C,
    message: Seq<char>,
) -> bool {
    let others = non_default(map.entries@);
    ||| map.get_spec("default"@) is None && message == prefix + ".default is unset"@
    ||| default_fails(map, prefix, compile, message)
    ||| exists|i: int|
        0 <= i < others.len() && crate::record::entry_type_spec(#[trigger] others[i].0@) is None
            && message == prefix + "."@ + others[i].0@ + " names no entry type"@
    ||| exists|i: int, f: Seq<char>|
        0 <= i < others.len() && #[trigger] fails_with(compile, others[i].1@, f) && message
            == prefix + "."@ + others[i].0@ + ": "@ + f
}

fn compile_failure(prefix: &str, key: &str, failure: &str) -> (r: String)
    ensures
        r@ == prefix@ + "."@ + key@ + ": "@ + failure@,
{
    let mut r = crate::text::concat2(prefix, ".");
    r.append(key);
    r.append(": ");
    r.append(failure);
    r
}

/// The templates `map` describes, compiled: its `default`, and one for
/// each other key, which names an entry type.
///
/// `map` is one of the configuration's template tables and `prefix` the
/// name it goes by in a configuration file, under which every
/// diagnostic names the offending key: `templates.thesis`,
/// `citation-keys.default`. `compile` compiles one template. A key
/// naming no entry type, and a template that will not compile, are
/// errors for the whole run: a template is configuration, so a broken
/// one is wrong for every file in the batch.
pub fn templates<T, C: Fn(String) -> Result<T, String>>(
    map: &crate::dict::Dict<String>,
    prefix: &str,
    compile: &C,
) -> (r: Result<(T, Vec<(crate::record::EntryType, T)>), Diagnostic>)
    requires
        map.wf(),
        forall|s: String| call_requires(*compile, (s,)),
    ensures
        map.get_spec("default"@) is None ==> r is Err,
        match r {
            Ok((default, table)) => {
                &&& map.get_spec("default"@) matches Some(source) && compiles_to(
                    *compile,
                    source@,
                    default,
                )
                &&& table@.len() == non_default(map.entries@).len()
                &&& forall|i: int|
                    0 <= i < table@.len() ==> crate::record::entry_type_spec(
                        #[trigger] non_default(map.entries@)[i].0@,
                    ) == Some(table@[i].0) && compiles_to(
                        *compile,
                        non_default(map.entries@)[i].1@,
                        table@[i].1,
                    )
            },
            Err(d) => d.level == Level::Error && template_refusal(
                *map,
                prefix@,
                *compile,
                d.message@,
            ),
        },
{
    let default_source = match map.get("default") {
        Some(source) => source,
        None => {
            let mut message = String::from_str(prefix);
            message.append(".default is unset");
            return Err(error(message));
        },
    };
    let copy = default_source.clone();
    let ghost asked = copy;
    let compiled = compile(copy);
    assert(call_ensures(*compile, (asked,), compiled));
    let default = match compiled {
        Ok(t) => {
            let ghost gt = t;
            assert(call_ensures(*compile, (asked,), Ok::<T, String>(gt)));
            t
        },
        Err(failure) => {
            let ghost gfail = failure;
            assert(call_ensures(*compile, (asked,), Err::<T, String>(gfail)));
            assert(fails_with(*compile, default_source@, failure@));
            let mut message = crate::text::concat2(prefix, ".default: ");
            message.append(failure.as_str());
            assert(map.get_spec("default"@) == Some(*default_source));
            assert(exists|f: Seq<char>|
                #[trigger] fails_with(*compile, default_source@, f) && message@ == prefix@
                    + ".default: "@ + f);
            assert(map.get_spec("default"@) is Some);
            assert(match map.get_spec("default"@) {
                Some(source) => source == *default_source,
                None => false,
            });
            assert(match map.get_spec("default"@) {
                Some(source) => exists|f: Seq<char>|
                    #[trigger] fails_with(*compile, source@, f) && message@ == prefix@ + ".default: "@ + f,
                None => false,
            });
            assert(default_fails::<T, C>(*map, prefix@, *compile, message@));
            assert(template_refusal::<T, C>(*map, prefix@, *compile, message@));
            return Err(error(message));
        },
    };
    let ghost all = map.entries@;
    let mut table: Vec<(crate::record::EntryType, T)> = Vec::new();
    let mut i: usize = 0;
    assert(all.take(0) =~= Seq::<(String, String)>::empty());
    while i < map.entries.len()
        invariant
            all == map.entries@,
            i <= all.len(),
            forall|s: String| call_requires(*compile, (s,)),
            table@.len() == non_default(all.take(i as int)).len(),
            forall|j: int|
                0 <= j < table@.len() ==> crate::record::entry_type_spec(
                    #[trigger] non_default(all.take(i as int))[j].0@,
                ) == Some(table@[j].0) && compiles_to(
                    *compile,
                    non_default(all.take(i as int))[j].1@,
                    table@[j].1,
                ),
            forall|j: int|
                0 <= j < non_default(all.take(i as int)).len() ==> non_default(
                    all.take(i as int),
                )[j] == #[trigger] non_default(all)[j],
            non_default(all.take(i as int)).len() <= non_default(all).len(),
        decreases all.len() - i,
    {
        proof {
            lemma_non_default_prefix(all, i as int);
        }
        let name = &map.entries[i].0;
        if !crate::text::same(name.as_str(), "default") {
            let ghost k = table@.len() as int;
            assert(non_default(all)[k] == all[i as int]);
            let kind = match crate::record::entry_type(name.as_str()) {
                Some(kind) => kind,
                None => {
                    let mut message = crate::text::concat2(prefix, ".");
                    message.append(name.as_str());
                    message.append(" names no entry type");
                    return Err(error(message));
                },
            };
            let copy = map.entries[i].1.clone();
            let ghost asked = copy;
            let compiled = compile(copy);
            assert(call_ensures(*compile, (asked,), compiled));
            match compiled {
                Ok(t) => {
                    let ghost gt = t;
                    assert(call_ensures(*compile, (asked,), Ok::<T, String>(gt)));
                    table.push((kind, t));
                },
                Err(failure) => {
                    let ghost gfail = failure;
                    assert(call_ensures(*compile, (asked,), Err::<T, String>(gfail)));
                    assert(fails_with(*compile, non_default(all)[k].1@, failure@));
                    return Err(
                        error(compile_failure(prefix, name.as_str(), failure.as_str())),
                    );
                },
            }
        }
        proof {
            assert(all.take(i + 1).drop_last() =~= all.take(i as int));
            assert(all.take(i + 1).last() == all[i as int]);
        }
        i = i + 1;
    }
    assert(all.take(i as int) =~= all);
    Ok((default, table))
}

proof fn lemma_non_default_prefix(all: Seq<(String, String)>, i: int)
    requires
        0 <= i < all.len(),
        forall|j: int|
            0 <= j < non_default(all.take(i)).len() ==> non_default(all.take(i))[j]
                == #[trigger] non_default(all)[j],
        non_default(all.take(i)).len() <= non_default(all).len(),
    ensures
        all[i].0@ != "default"@ ==> non_default(all.take(i)).len() < non_default(all).len()
            && non_default(all)[non_default(all.take(i)).len() as int] == all[i],
        forall|j: int|
            0 <= j < non_default(all.take(i + 1)).len() ==> non_default(all.take(i + 1))[j]
                == #[trigger] non_default(all)[j],
        non_default(all.take(i + 1)).len() <= non_default(all).len(),
{
    lemma_non_default_extends(all, i + 1);
    assert(all.take(i + 1).drop_last() =~= all.take(i));
    assert(all.take(i + 1).last() == all[i]);
}

proof fn lemma_non_default_extends(all: Seq<(String, String)>, n: int)
    requires
        0 <= n <= all.len(),
    ensures
        non_default(all.take(n)).len() <= non_default(all).len(),
        forall|j: int|
            0 <= j < non_default(all.take(n)).len() ==> non_default(all.take(n))[j]
                == #[trigger] non_default(all)[j],
    decreases all.len() - n,
{
    if n == all.len() {
        assert(all.take(n) =~= all);
    } else {
        lemma_non_default_extends(all, n + 1);
        assert(all.take(n + 1).drop_last() =~= all.take(n));
    }
}

/// The ledger entry recording that `file` was admitted to the
/// collection at `root` and now sits at `path`, as of `at`, when there
/// is one to append: never when the run keeps no ledger, when the file
/// landed outside the collection, or when its content hash is unknown.
/// The entry's path is relative to `root`, and `at` is both its
/// timestamp and the identifier of the run.
pub fn admission(
    ledger: bool,
    root: &str,
    file: &crate::pipeline::FileRecord,
    path: &str,
    at: &str,
    tool_version: &str,
) -> (r: Option<crate::ledger::LedgerEntry>)
    ensures
        !ledger ==> r is None,
        ledger ==> match crate::ledger::collection_relative_spec(root@, path@) {
            None => r is None,
            Some(relative) => match file.hash {
                Some(hash) => r matches Some(e) && crate::ledger::entry_spec(
                    file.record,
                    hash,
                    relative,
                    at@,
                    at@,
                    tool_version@,
                    e,
                ),
                None => r is None,
            },
        },
        r matches Some(e) ==> e.doi == file.record.doi && e.arxiv == file.record.arxiv && e.pmid
            == file.record.pmid && e.isbn == file.record.isbn && file.hash == Some(e.hash),
{
    if !ledger {
        return None;
    }
    let relative = match crate::ledger::collection_relative(root, path) {
        Some(relative) => relative,
        None => return None,
    };
    let run = crate::journal::RunId::new(at);
    crate::ledger::admission_entry(file, relative.as_str(), &run, at, tool_version)
}

/// Where the file an event is about sits once the event has happened:
/// the target of a move that happened, and otherwise where it was. A
/// preview reports the same target and moves nothing, which is why this
/// reads the event.
pub fn current_path(event: &crate::event::Event, path: &str) -> (r: String)
    ensures
        r@ == match event {
            crate::event::Event::Renamed { target, .. } => target@,
            _ => path@,
        },
{
    match event {
        crate::event::Event::Renamed { target, .. } => target.clone(),
        _ => String::from_str(path),
    }
}

/// The error a cache that could not be inspected or cleared is
/// reported with: the cache's directory, quoted, and the failure.
pub fn cache_failure(root: &str, failure: &str) -> (d: Diagnostic)
    ensures
        d.level == Level::Error,
        d.message@ == "\""@ + root@ + "\": "@ + failure@,
{
    let mut message = String::from_str("\"");
    message.append(root);
    message.append("\": ");
    message.append(failure);
    error(message)
}

/// The error `borax cache` is refused with on a system that names no
/// cache directory.
pub fn no_cache_directory() -> (d: Diagnostic)
    ensures
        d.level == Level::Error,
        d.message@ == "this system names no cache directory"@,
{
    error(String::from_str("this system names no cache directory"))
}

/// The error `borax ledger rebuild` is refused with outside any
/// collection.
pub fn outside_collection() -> (d: Diagnostic)
    ensures
        d.level == Level::Error,
        d.message@ == "this directory is in no collection, so there is no ledger to rebuild"@,
{
    error(String::from_str("this directory is in no collection, so there is no ledger to rebuild"))
}

/// The error an applying run with nowhere to record itself is refused
/// with: a rename nothing recorded is a rename `borax undo` cannot see.
pub fn nowhere_to_record() -> (d: Diagnostic)
    ensures
        d.level == Level::Error,
        d.message@ == NOWHERE_TO_RECORD@,
{
    error(String::from_str(NOWHERE_TO_RECORD))
}

/// The message of [`nowhere_to_record`].
pub const NOWHERE_TO_RECORD: &'static str = "--apply needs somewhere to record the run so it can be undone, and this is neither in a collection nor on a system that names a state directory";

/// The message a run log that could not be opened is reported with.
pub fn log_unwritable(path: &str, failure: &str) -> (r: String)
    ensures
        r@ == "the run log \""@ + path@ + "\" could not be written: "@ + failure@,
{
    let mut r = String::from_str("the run log \"");
    r.append(path);
    r.append("\" could not be written: ");
    r.append(failure);
    r
}

/// The error a run log `borax undo` cannot replay is reported with: a
/// schema this build does not understand, or a line that is not JSON.
pub fn unreplayable(path: &str, refusal: &crate::undo::Refusal, version: &str) -> (d: Diagnostic)
    ensures
        d.level == Level::Error,
        d.message@ == match refusal {
            crate::undo::Refusal::Schema { found } => "the run log \""@ + path@
                + "\" is written in schema "@ + crate::text::decimal_spec(*found as nat)
                + ", which this borax ("@ + version@ + ") does not understand"@,
            crate::undo::Refusal::Unreadable { message } => "the run log \""@ + path@
                + "\" could not be read ("@ + message@ + "), so there is nothing safe to undo"@,
        },
{
    let mut message = String::from_str("the run log \"");
    message.append(path);
    match refusal {
        crate::undo::Refusal::Schema { found } => {
            message.append("\" is written in schema ");
            let number = crate::text::decimal(*found as u64);
            message.append(number.as_str());
            message.append(", which this borax (");
            message.append(version);
            message.append(") does not understand");
        },
        crate::undo::Refusal::Unreadable { message: why } => {
            message.append("\" could not be read (");
            message.append(why.as_str());
            message.append("), so there is nothing safe to undo");
        },
    }
    error(message)
}

} // verus!
