//! Where configuration layers come from: the environment, the files a
//! run finds on its way up from an input, and the global file.

use vstd::prelude::*;
use crate::config::{
    key_text, slot, BibLayer, ExtractionLayer, Layer, NetworkLayer, Origin, RenameLayer,
    SettingKey, SettingValue,
};
use crate::resolution::{texts, ConfigError};
use crate::text::{debug_text, split_on, trimmed, whole_number};

verus! {

/// The environment variable, without its prefix, that addresses `key`:
/// its dotted name uppercased, with `.` and `-` turned into `_`.
pub open spec fn env_text(key: SettingKey) -> Seq<char> {
    match key {
        SettingKey::BibDuplicates => "BIB_DUPLICATES"@,
        SettingKey::BibPath => "BIB_PATH"@,
        SettingKey::BibSidecars => "BIB_SIDECARS"@,
        SettingKey::CollectionRoot => "COLLECTION_ROOT"@,
        SettingKey::ExtractionPageLimit => "EXTRACTION_PAGE_LIMIT"@,
        SettingKey::Ledger => "LEDGER"@,
        SettingKey::Mailto => "MAILTO"@,
        SettingKey::NetworkCache => "NETWORK_CACHE"@,
        SettingKey::NetworkConcurrency => "NETWORK_CONCURRENCY"@,
        SettingKey::NetworkMinIntervalMs => "NETWORK_MIN_INTERVAL_MS"@,
        SettingKey::RenameCollision => "RENAME_COLLISION"@,
        SettingKey::RunLog => "RUN_LOG"@,
        SettingKey::Sources => "SOURCES"@,
    }
}

/// The environment variable, without its prefix, that addresses `key`.
pub fn env_name(key: SettingKey) -> (r: &'static str)
    ensures
        r@ == env_text(key),
{
    match key {
        SettingKey::BibDuplicates => "BIB_DUPLICATES",
        SettingKey::BibPath => "BIB_PATH",
        SettingKey::BibSidecars => "BIB_SIDECARS",
        SettingKey::CollectionRoot => "COLLECTION_ROOT",
        SettingKey::ExtractionPageLimit => "EXTRACTION_PAGE_LIMIT",
        SettingKey::Ledger => "LEDGER",
        SettingKey::Mailto => "MAILTO",
        SettingKey::NetworkCache => "NETWORK_CACHE",
        SettingKey::NetworkConcurrency => "NETWORK_CONCURRENCY",
        SettingKey::NetworkMinIntervalMs => "NETWORK_MIN_INTERVAL_MS",
        SettingKey::RenameCollision => "RENAME_COLLISION",
        SettingKey::RunLog => "RUN_LOG",
        SettingKey::Sources => "SOURCES",
    }
}

/// The first setting, in key order, whose variable is `suffix`.
pub open spec fn setting_for_env_in(keys: Seq<SettingKey>, suffix: Seq<char>) -> Option<SettingKey>
    decreases keys.len(),
{
    if keys.len() == 0 {
        None
    } else if env_text(keys[0]) == suffix {
        Some(keys[0])
    } else {
        setting_for_env_in(keys.skip(1), suffix)
    }
}

/// The setting whose variable, without its prefix, is `suffix`.
pub open spec fn setting_for_env(suffix: Seq<char>) -> Option<SettingKey> {
    setting_for_env_in(crate::config::setting_keys(), suffix)
}

/// The setting whose variable, without its prefix, is `suffix`.
pub fn env_setting(suffix: &str) -> (r: Option<SettingKey>)
    ensures
        r == setting_for_env(suffix@),
{
    let keys = crate::config::settings_in_order();
    let mut i: usize = 0;
    assert(keys@.skip(0) =~= keys@);
    while i < keys.len()
        invariant
            keys@ == crate::config::setting_keys(),
            i <= keys@.len(),
            setting_for_env(suffix@) == setting_for_env_in(keys@.skip(i as int), suffix@),
        decreases keys@.len() - i,
    {
        assert(keys@.skip(i as int)[0] == keys@[i as int]);
        assert(keys@.skip(i as int).skip(1) =~= keys@.skip(i + 1));
        if crate::text::same(env_name(keys[i]), suffix) {
            return Some(keys[i]);
        }
        i = i + 1;
    }
    None
}

/// A setting's value as the library reads it, with names as text.
pub enum ValueView {
    Text(Seq<char>),
    Count(nat),
    Flag(bool),
    List(Seq<Seq<char>>),
}

/// `v` with its names as text.
pub open spec fn value_view(v: SettingValue) -> ValueView {
    match v {
        SettingValue::Text(t) => ValueView::Text(t),
        SettingValue::Count(n) => ValueView::Count(n),
        SettingValue::Flag(b) => ValueView::Flag(b),
        SettingValue::List(names) => ValueView::List(texts(names)),
    }
}

/// What `layer` says about `key`, with names as text.
pub open spec fn slot_view(layer: Layer, key: SettingKey) -> Option<ValueView> {
    match slot(layer, key) {
        Some(v) => Some(value_view(v)),
        None => None,
    }
}

/// What the text `text` means as a value of `key`, or the message it is
/// refused with: text is taken as it is, booleans are `true` or
/// `false`, counts are whole numbers that fit, and the sources are a
/// comma-separated list with each name trimmed.
pub open spec fn meaning(key: SettingKey, text: Seq<char>) -> Result<ValueView, Seq<char>> {
    match key {
        SettingKey::BibSidecars | SettingKey::Ledger | SettingKey::NetworkCache
        | SettingKey::RunLog => if text == "true"@ {
            Ok(ValueView::Flag(true))
        } else if text == "false"@ {
            Ok(ValueView::Flag(false))
        } else {
            Err("expected true or false, got "@ + debug_text(text))
        },
        SettingKey::ExtractionPageLimit | SettingKey::NetworkConcurrency => match whole_number(
            text,
        ) {
            Some(n) => if n <= usize::MAX {
                Ok(ValueView::Count(n))
            } else {
                Err("expected a whole number, got "@ + debug_text(text))
            },
            None => Err("expected a whole number, got "@ + debug_text(text)),
        },
        SettingKey::NetworkMinIntervalMs => match whole_number(text) {
            Some(n) => if n <= u64::MAX {
                Ok(ValueView::Count(n))
            } else {
                Err("expected a whole number, got "@ + debug_text(text))
            },
            None => Err("expected a whole number, got "@ + debug_text(text)),
        },
        SettingKey::Sources => Ok(
            ValueView::List(split_on(text, ',').map_values(|p: Seq<char>| trimmed(p))),
        ),
        _ => Ok(ValueView::Text(text)),
    }
}

/// A value read for one setting, in the type that setting takes.
pub enum Stored {
    Text(String),
    Count(usize),
    Millis(u64),
    Flag(bool),
    List(Vec<String>),
}

/// The value `stored` holds, in the form a layer gives it.
pub open spec fn stored_value(stored: Stored) -> SettingValue {
    match stored {
        Stored::Text(t) => SettingValue::Text(t@),
        Stored::Count(n) => SettingValue::Count(n as nat),
        Stored::Millis(n) => SettingValue::Count(n as nat),
        Stored::Flag(b) => SettingValue::Flag(b),
        Stored::List(names) => SettingValue::List(names@),
    }
}

/// Whether `stored` is of the type `key` takes.
pub open spec fn fits(key: SettingKey, stored: Stored) -> bool {
    match key {
        SettingKey::BibSidecars | SettingKey::Ledger | SettingKey::NetworkCache
        | SettingKey::RunLog => stored is Flag,
        SettingKey::ExtractionPageLimit | SettingKey::NetworkConcurrency => stored is Count,
        SettingKey::NetworkMinIntervalMs => stored is Millis,
        SettingKey::Sources => stored is List,
        _ => stored is Text,
    }
}

/// Each piece of `text` cut at its commas, trimmed.
fn trimmed_pieces(text: &str) -> (r: Vec<String>)
    ensures
        texts(r@) == split_on(text@, ',').map_values(|p: Seq<char>| trimmed(p)),
{
    let pieces = crate::text::split(text, ',');
    let ghost all = split_on(text@, ',');
    let mut r: Vec<String> = Vec::new();
    let mut i: usize = 0;
    while i < pieces.len()
        invariant
            pieces@.map_values(|p: String| p@) == all,
            i <= pieces@.len(),
            texts(r@) == all.map_values(|p: Seq<char>| trimmed(p)).take(i as int),
        decreases pieces@.len() - i,
    {
        let t = crate::text::trim(pieces[i].as_str());
        let ghost before = r@;
        r.push(t);
        proof {
            assert(all[i as int] == pieces@[i as int]@);
            assert(texts(r@) =~= texts(before).push(t@));
            assert(all.map_values(|p: Seq<char>| trimmed(p)).take(i + 1) =~= all.map_values(
                |p: Seq<char>| trimmed(p),
            ).take(i as int).push(trimmed(all[i as int])));
        }
        i = i + 1;
    }
    assert(all.map_values(|p: Seq<char>| trimmed(p)).take(i as int) =~= all.map_values(
        |p: Seq<char>| trimmed(p),
    ));
    r
}

/// The message for a value that is not what its setting takes.
fn refusal(expected: &str, text: &str) -> (r: String)
    ensures
        r@ == expected@ + debug_text(text@),
{
    let quoted = crate::text::debug_quote(text);
    crate::text::concat2(expected, quoted.as_str())
}

/// Read `text` as the type `key` takes, or give the message it is
/// refused with.
pub fn store(key: SettingKey, text: &str) -> (r: Result<Stored, String>)
    ensures
        match meaning(key, text@) {
            Ok(v) => r matches Ok(stored) && fits(key, stored) && value_view(stored_value(stored))
                == v,
            Err(message) => r matches Err(m) && m@ == message,
        },
{
    match key {
        SettingKey::BibSidecars | SettingKey::Ledger | SettingKey::NetworkCache
        | SettingKey::RunLog => {
            if crate::text::same(text, "true") {
                Ok(Stored::Flag(true))
            } else if crate::text::same(text, "false") {
                Ok(Stored::Flag(false))
            } else {
                Err(refusal("expected true or false, got ", text))
            }
        },
        SettingKey::ExtractionPageLimit | SettingKey::NetworkConcurrency => {
            match crate::text::parse_whole(text) {
                Some(n) => {
                    if n <= usize::MAX as u64 {
                        Ok(Stored::Count(n as usize))
                    } else {
                        Err(refusal("expected a whole number, got ", text))
                    }
                },
                None => Err(refusal("expected a whole number, got ", text)),
            }
        },
        SettingKey::NetworkMinIntervalMs => match crate::text::parse_whole(text) {
            Some(n) => Ok(Stored::Millis(n)),
            None => Err(refusal("expected a whole number, got ", text)),
        },
        SettingKey::Sources => {
            let names = trimmed_pieces(text);
            Ok(Stored::List(names))
        },
        _ => Ok(Stored::Text(String::from_str(text))),
    }
}

/// The `[bib]` table of `layer`, or an empty one.
fn bib_of(layer: &mut Layer) -> (b: BibLayer)
    ensures
        b == match old(layer).bib {
            Some(bib) => bib,
            None => BibLayer { path: None, duplicates: None, sidecars: None },
        },
        *final(layer) == (Layer { bib: None, ..*old(layer) }),
{
    match layer.bib.take() {
        Some(bib) => bib,
        None => BibLayer { path: None, duplicates: None, sidecars: None },
    }
}

/// The `[network]` table of `layer`, or an empty one.
fn network_of(layer: &mut Layer) -> (n: NetworkLayer)
    ensures
        n == match old(layer).network {
            Some(network) => network,
            None => NetworkLayer { concurrency: None, min_interval_ms: None, cache: None },
        },
        *final(layer) == (Layer { network: None, ..*old(layer) }),
{
    match layer.network.take() {
        Some(network) => network,
        None => NetworkLayer { concurrency: None, min_interval_ms: None, cache: None },
    }
}

/// Set `key` in `layer` to what `stored` holds, leaving every other
/// setting and table as it was.
pub fn set_setting(layer: &mut Layer, key: SettingKey, stored: Stored)
    requires
        fits(key, stored),
    ensures
        forall|k: SettingKey|
            #[trigger] slot(*final(layer), k) == (if k == key {
                Some(stored_value(stored))
            } else {
                slot(*old(layer), k)
            }),
        final(layer).templates == old(layer).templates,
        final(layer).citation_keys == old(layer).citation_keys,
        final(layer).tables == old(layer).tables,
        crate::config::tidy(*old(layer)) ==> crate::config::tidy(*final(layer)),
{
    match (key, stored) {
        (SettingKey::BibDuplicates, Stored::Text(t)) => {
            let mut bib = bib_of(layer);
            bib.duplicates = Some(t);
            layer.bib = Some(bib);
        },
        (SettingKey::BibPath, Stored::Text(t)) => {
            let mut bib = bib_of(layer);
            bib.path = Some(t);
            layer.bib = Some(bib);
        },
        (SettingKey::BibSidecars, Stored::Flag(b)) => {
            let mut bib = bib_of(layer);
            bib.sidecars = Some(b);
            layer.bib = Some(bib);
        },
        (SettingKey::CollectionRoot, Stored::Text(t)) => {
            layer.collection_root = Some(t);
        },
        (SettingKey::ExtractionPageLimit, Stored::Count(n)) => {
            layer.extraction = Some(ExtractionLayer { page_limit: Some(n) });
        },
        (SettingKey::Ledger, Stored::Flag(b)) => {
            layer.ledger = Some(b);
        },
        (SettingKey::Mailto, Stored::Text(t)) => {
            layer.mailto = Some(t);
        },
        (SettingKey::NetworkCache, Stored::Flag(b)) => {
            let mut network = network_of(layer);
            network.cache = Some(b);
            layer.network = Some(network);
        },
        (SettingKey::NetworkConcurrency, Stored::Count(n)) => {
            let mut network = network_of(layer);
            network.concurrency = Some(n);
            layer.network = Some(network);
        },
        (SettingKey::NetworkMinIntervalMs, Stored::Millis(n)) => {
            let mut network = network_of(layer);
            network.min_interval_ms = Some(n);
            layer.network = Some(network);
        },
        (SettingKey::RenameCollision, Stored::Text(t)) => {
            layer.rename = Some(RenameLayer { collision: Some(t) });
        },
        (SettingKey::RunLog, Stored::Flag(b)) => {
            layer.run_log = Some(b);
        },
        (SettingKey::Sources, Stored::List(names)) => {
            layer.sources = Some(names);
        },
        _ => {},
    }
}

/// Why a variable of the environment cannot be read as a setting.
pub enum EnvFailure {
    /// It carries the prefix, and no setting has the name that follows.
    Unknown(Seq<char>),
    /// It names the setting, as the name after the prefix, but its
    /// value is refused with the message.
    Invalid(SettingKey, Seq<char>, Seq<char>),
}

/// The part of the variable `name` after the prefix.
pub open spec fn env_suffix(name: Seq<char>) -> Seq<char> {
    name.skip("BORAX_"@.len() as int)
}

/// Whether the variable `name` carries the prefix.
pub open spec fn prefixed(name: Seq<char>) -> bool {
    crate::text::starts_with(name, "BORAX_"@)
}

/// Why the variable `name`, holding `value`, cannot be read as a
/// setting, if it cannot. A variable without the prefix is no setting
/// and is ignored.
pub open spec fn var_failure(name: Seq<char>, value: Seq<char>) -> Option<EnvFailure> {
    if !prefixed(name) {
        None
    } else {
        match setting_for_env(env_suffix(name)) {
            None => Some(EnvFailure::Unknown(env_suffix(name))),
            Some(k) => match meaning(k, value) {
                Ok(_) => None,
                Err(m) => Some(EnvFailure::Invalid(k, env_suffix(name), m)),
            },
        }
    }
}

/// The first variable of `vars` that cannot be read as a setting.
pub open spec fn first_env_failure(vars: Seq<(String, String)>) -> Option<EnvFailure>
    decreases vars.len(),
{
    if vars.len() == 0 {
        None
    } else {
        match var_failure(vars[0].0@, vars[0].1@) {
            Some(f) => Some(f),
            None => first_env_failure(vars.skip(1)),
        }
    }
}

/// The value the last variable of `vars` naming `key` gives it.
pub open spec fn env_value(vars: Seq<(String, String)>, key: SettingKey) -> Option<ValueView>
    decreases vars.len(),
{
    if vars.len() == 0 {
        None
    } else {
        let name = vars.last().0@;
        if prefixed(name) && setting_for_env(env_suffix(name)) == Some(key) {
            match meaning(key, vars.last().1@) {
                Ok(v) => Some(v),
                Err(_) => env_value(vars.drop_last(), key),
            }
        } else {
            env_value(vars.drop_last(), key)
        }
    }
}

/// Read a layer from environment variables, given as `(name, value)`
/// pairs in the order the environment lists them.
///
/// A variable is a setting when its name is the prefix followed by a
/// setting's variable name, so `network.min-interval-ms` is
/// `BORAX_NETWORK_MIN_INTERVAL_MS`. Variables without the prefix are
/// ignored; a prefixed variable naming no setting is refused, and so is
/// a value its setting cannot take, whichever comes first. A later
/// variable for a setting overrides an earlier one. Templates cannot be
/// set this way.
pub fn layer_from_env(vars: &Vec<(String, String)>) -> (r: Result<Layer, ConfigError>)
    ensures
        match first_env_failure(vars@) {
            Some(EnvFailure::Unknown(suffix)) => r matches Err(ConfigError::UnknownEnv { name })
                && name@ == suffix,
            Some(EnvFailure::Invalid(k, suffix, m)) => r matches Err(
                ConfigError::Invalid { key, origin: Origin::Env(n), message },
            ) && key@ == key_text(k) && n@ == suffix && message@ == m,
            None => r matches Ok(layer) && crate::config::no_tables(layer) && crate::config::tidy(
                layer,
            ) && forall|key: SettingKey| #[trigger] slot_view(layer, key) == env_value(vars@, key),
        },
{
    let mut layer = Layer::empty();
    let mut i: usize = 0;
    assert(vars@.skip(0) =~= vars@);
    assert(vars@.take(0) =~= Seq::<(String, String)>::empty());
    while i < vars.len()
        invariant
            i <= vars@.len(),
            first_env_failure(vars@) == first_env_failure(vars@.skip(i as int)),
            crate::config::no_tables(layer),
            crate::config::tidy(layer),
            forall|key: SettingKey|
                #[trigger] slot_view(layer, key) == env_value(vars@.take(i as int), key),
        decreases vars@.len() - i,
    {
        let ghost rest = vars@.skip(i as int);
        let ghost upto = vars@.take(i + 1);
        proof {
            assert(rest[0] == vars@[i as int]);
            assert(rest.skip(1) =~= vars@.skip(i + 1));
            assert(upto.drop_last() =~= vars@.take(i as int));
            assert(upto.last() == vars@[i as int]);
        }
        let name = vars[i].0.as_str();
        let value = vars[i].1.as_str();
        assert(crate::config::ENV_PREFIX@ == "BORAX_"@);
        if crate::text::has_prefix(name, crate::config::ENV_PREFIX) {
            let suffix = crate::text::tail(name, crate::config::ENV_PREFIX.unicode_len());
            match env_setting(suffix.as_str()) {
                None => {
                    return Err(ConfigError::UnknownEnv { name: suffix });
                },
                Some(k) => match store(k, value) {
                    Ok(stored) => {
                        let ghost before = layer;
                        assert(suffix@ == env_suffix(name@));
                        set_setting(&mut layer, k, stored);
                        assert forall|key: SettingKey| #[trigger] slot_view(layer, key) == env_value(
                            upto,
                            key,
                        ) by {
                            if key != k {
                                assert(slot_view(layer, key) == slot_view(before, key));
                            }
                        }
                    },
                    Err(message) => {
                        return Err(
                            ConfigError::Invalid {
                                key: String::from_str(k.name()),
                                origin: Origin::Env(suffix),
                                message,
                            },
                        );
                    },
                },
            }
        }
        i = i + 1;
    }
    assert(vars@.take(i as int) =~= vars@);
    Ok(layer)
}

/// `p`, its parent, its parent's parent, and so on up to the root or
/// the empty path, as `Path::ancestors` walks them.
pub open spec fn ancestors(p: Seq<char>) -> Seq<Seq<char>>
    decreases p.len(),
{
    proof {
        crate::paths::lemma_parent_shorter(p);
    }
    match crate::paths::parent_spec(p) {
        Some(q) => seq![p] + ancestors(q),
        None => seq![p],
    }
}

/// The override file that would sit in `directory`.
pub open spec fn override_in(directory: Seq<char>) -> Seq<char> {
    crate::paths::join_spec(directory, crate::config::OVERRIDE_FILE@)
}

/// Whether `found` is what a search upward from `start` can find, when
/// `asked(p, b)` says that asking about `p` can answer `b`: the
/// override file in the first directory where the answer was yes, every
/// directory below it having answered no; or nothing, every directory
/// up to the top having answered no.
pub open spec fn search_result(
    start: Seq<char>,
    asked: spec_fn(Seq<char>, bool) -> bool,
    found: Option<Seq<char>>,
) -> bool {
    let dirs = ancestors(start);
    match found {
        Some(f) => exists|j: int|
            0 <= j < dirs.len() && f == override_in(dirs[j]) && asked(f, true) && forall|m: int|
                0 <= m < j ==> asked(override_in(#[trigger] dirs[m]), false),
        None => forall|m: int| 0 <= m < dirs.len() ==> asked(override_in(#[trigger] dirs[m]), false),
    }
}

/// Whether calling `is_file` on a path whose text is `path` can answer
/// `answer`.
pub open spec fn replied<F: Fn(String) -> bool>(is_file: F, path: Seq<char>, answer: bool) -> bool {
    exists|p: String| p@ == path && call_ensures(is_file, (p,), answer)
}

/// Whether `found` is what a search upward from `start` can find when
/// `is_file` is asked about each directory's override file.
pub open spec fn found_by<F: Fn(String) -> bool>(
    start: Seq<char>,
    is_file: F,
    found: Option<Seq<char>>,
) -> bool {
    search_result(start, |p: Seq<char>, b: bool| replied(is_file, p, b), found)
}

/// The nearest override file at or above `start`.
///
/// `start` is the directory an input file lives in. Directories are
/// tried from `start` upward to the top and the first hit wins, so the
/// nearest overrides the furthest and no more than one override file
/// applies to any file. `is_file` answers whether a path is a readable
/// file.
pub fn nearest_override<F: Fn(String) -> bool>(start: &str, is_file: &F) -> (r: Option<String>)
    requires
        forall|p: String| call_requires(*is_file, (p,)),
    ensures
        found_by(start@, *is_file, crate::resolution::text_of(r)),
{
    let ghost dirs = ancestors(start@);
    let ghost asked = |p: Seq<char>, b: bool| replied(*is_file, p, b);
    let mut directory = String::from_str(start);
    let ghost mut j: int = 0;
    proof {
        assert(dirs.skip(0) =~= dirs);
    }
    loop
        invariant
            dirs == ancestors(start@),
            asked == (|p: Seq<char>, b: bool| replied(*is_file, p, b)),
            forall|p: String| call_requires(*is_file, (p,)),
            0 <= j < dirs.len(),
            dirs.skip(j) == ancestors(directory@),
            forall|m: int| 0 <= m < j ==> asked(override_in(#[trigger] dirs[m]), false),
        decreases directory@.len(),
    {
        proof {
            crate::paths::lemma_parent_shorter(directory@);
            assert(dirs[j] == dirs.skip(j)[0]);
        }
        let candidate = crate::paths::join(directory.as_str(), crate::config::OVERRIDE_FILE);
        let copy = candidate.clone();
        let ghost asked_about = copy;
        let present = is_file(copy);
        assert(call_ensures(*is_file, (asked_about,), present));
        if present {
            assert(asked(candidate@, true));
            return Some(candidate);
        }
        assert(asked(override_in(dirs[j]), false));
        match crate::paths::parent(directory.as_str()) {
            Some(up) => {
                proof {
                    assert(ancestors(directory@) == seq![directory@] + ancestors(up@));
                    assert(dirs.skip(j + 1) =~= dirs.skip(j).skip(1));
                    assert((seq![directory@] + ancestors(up@)).skip(1) =~= ancestors(up@));
                    j = j + 1;
                }
                directory = up;
            },
            None => {
                proof {
                    assert(ancestors(directory@) == seq![directory@]);
                    assert(dirs.len() == j + 1);
                }
                return None;
            },
        }
    }
}

/// The directory anchoring the collection a run in `start` belongs to.
///
/// `configured` is the `collection-root` setting, and when it is set it
/// is the answer outright. Otherwise the root is the directory holding
/// the nearest override file at or above `start`, found as
/// [`nearest_override`] finds it; `None` when there is none, which is a
/// run outside any collection.
pub fn collection_root<F: Fn(String) -> bool>(
    start: &str,
    configured: Option<&str>,
    is_file: &F,
) -> (r: Option<String>)
    requires
        forall|p: String| call_requires(*is_file, (p,)),
    ensures
        configured matches Some(c) ==> r matches Some(v) && v@ == c@,
        configured is None ==> exists|found: Option<Seq<char>>|
            #[trigger] found_by(start@, *is_file, found) && crate::resolution::text_of(r)
                == match found {
                Some(f) => crate::paths::parent_spec(f),
                None => None,
            },
{
    match configured {
        Some(c) => Some(String::from_str(c)),
        None => {
            let found = nearest_override(start, is_file);
            let ghost seen = crate::resolution::text_of(found);
            assert(found_by(start@, *is_file, seen));
            match found {
                Some(f) => {
                    let up = crate::paths::parent(f.as_str());
                    assert(crate::resolution::text_of(up) == crate::paths::parent_spec(f@));
                    up
                },
                None => None,
            }
        },
    }
}

/// The global configuration file the environment `env` implies: the
/// first of `XDG_CONFIG_HOME` and `HOME/.config` whose variable holds an
/// absolute path, followed by `borax/config.toml`.
pub open spec fn global_config_spec(env: Seq<(String, String)>) -> Option<Seq<char>> {
    let base = match crate::runlog::candidate(env, "XDG_CONFIG_HOME"@, None) {
        Some(b) => Some(b),
        None => crate::runlog::candidate(env, "HOME"@, Some(".config"@)),
    };
    match base {
        Some(b) => Some(
            crate::paths::join_spec(crate::paths::join_spec(b, "borax"@), "config.toml"@),
        ),
        None => None,
    }
}

/// The global configuration file implied by the environment `env`,
/// given as name/value pairs.
///
/// The candidates are tried in order and the first whose value is an
/// absolute path is taken; a variable that is unset, empty or relative
/// is skipped. The path is neither created nor checked for existence.
/// `None` when no candidate qualifies.
pub fn global_config_path(env: &Vec<(String, String)>) -> (r: Option<String>)
    ensures
        crate::resolution::text_of(r) == global_config_spec(env@),
{
    let base = match crate::runlog::candidate_dir(env, "XDG_CONFIG_HOME", None) {
        Some(b) => Some(b),
        None => crate::runlog::candidate_dir(env, "HOME", Some(".config")),
    };
    match base {
        Some(b) => {
            let with_borax = crate::paths::join(b.as_str(), "borax");
            Some(crate::paths::join(with_borax.as_str(), "config.toml"))
        },
        None => None,
    }
}

/// The keys of a TOML document, each with the keys of its value when
/// that value is a table.
pub type Outline = Seq<(Seq<char>, Option<Seq<Seq<char>>>)>;

/// The outline of the TOML document `text` as `toml` reads it into a
/// table: its keys in the table's order, each with the keys of its value
/// when that value is a table; `None` when `text` is not TOML.
pub uninterp spec fn toml_outline(text: Seq<char>) -> Option<Seq<(Seq<char>, Option<Seq<Seq<char>>>)>>;

/// A document outline as text.
pub open spec fn outline_view(o: Option<Vec<(String, Option<Vec<String>>)>>) -> Option<Outline> {
    match o {
        Some(v) => Some(
            v@.map_values(
                |e: (String, Option<Vec<String>>)|
                    (
                        e.0@,
                        match e.1 {
                            Some(keys) => Some(texts(keys@)),
                            None => None,
                        },
                    ),
            ),
        ),
        None => None,
    }
}

/// The outline of the TOML document `text`.
///
/// Wraps `toml::Table`'s `FromStr`, which parses `text` as a TOML
/// document; each entry of the table is handed back as its key and,
/// when its value is a table, that table's keys. The result is named,
/// not spelled out: it depends on `text` alone.
#[verifier::external_body]
fn toml_keys(text: &str) -> (r: Option<Vec<(String, Option<Vec<String>>)>>)
    ensures
        outline_view(r) == toml_outline(text@),
{
    let document: toml::Table = text.parse().ok()?;
    Some(
        document.iter().map(
            |(key, value)| (key.clone(), value.as_table().map(|t| t.keys().cloned().collect())),
        ).collect(),
    )
}

/// The one key a configuration file may not set, whatever value it
/// gives it: what it selects is destructive and meant to be chosen once,
/// for one invocation, on the command line.
pub const COMMAND_LINE_ONLY: &'static str = "apply";

/// Whether the entry `e` of an outline is that key, or a table holding
/// it.
pub open spec fn entry_sets_apply(e: (Seq<char>, Option<Seq<Seq<char>>>)) -> bool {
    ||| e.0 == "apply"@
    ||| (e.1 matches Some(keys) && keys.contains("apply"@))
}

/// Whether a document with outline `o` sets the command-line-only key,
/// at its top level or in any table under it.
pub open spec fn sets_apply(o: Outline) -> bool {
    exists|i: int| 0 <= i < o.len() && #[trigger] entry_sets_apply(o[i])
}

fn holds_apply(keys: &Vec<String>) -> (r: bool)
    ensures
        r == texts(keys@).contains("apply"@),
{
    let mut i: usize = 0;
    while i < keys.len()
        invariant
            i <= keys@.len(),
            forall|j: int| 0 <= j < i ==> keys@[j]@ != "apply"@,
        decreases keys@.len() - i,
    {
        if crate::text::same(keys[i].as_str(), COMMAND_LINE_ONLY) {
            assert(texts(keys@)[i as int] == "apply"@);
            return true;
        }
        i = i + 1;
    }
    assert forall|j: int| 0 <= j < texts(keys@).len() implies texts(keys@)[j] != "apply"@ by {
        assert(texts(keys@)[j] == keys@[j]@);
    }
    false
}

/// The command-line-only key a document with outline `outline` sets,
/// if it sets one.
pub fn command_line_only_in(outline: &Vec<(String, Option<Vec<String>>)>) -> (r: Option<
    &'static str,
>)
    ensures
        match r {
            Some(k) => k@ == "apply"@ && sets_apply(outline_view(Some(*outline))->0),
            None => !sets_apply(outline_view(Some(*outline))->0),
        },
{
    let ghost o = outline_view(Some(*outline))->0;
    let mut i: usize = 0;
    while i < outline.len()
        invariant
            o == outline_view(Some(*outline))->0,
            i <= outline@.len(),
            forall|j: int| 0 <= j < i ==> !entry_sets_apply(#[trigger] o[j]),
        decreases outline@.len() - i,
    {
        let found = crate::text::same(outline[i].0.as_str(), COMMAND_LINE_ONLY) || match &outline[i].1 {
            Some(keys) => holds_apply(keys),
            None => false,
        };
        if found {
            assert(entry_sets_apply(o[i as int]));
            return Some(COMMAND_LINE_ONLY);
        }
        assert(!entry_sets_apply(o[i as int]));
        i = i + 1;
    }
    None
}

/// The command-line-only key the TOML document `text` sets, if it is
/// TOML and sets one.
fn command_line_only_key(text: &str) -> (r: Option<&'static str>)
    ensures
        match toml_outline(text@) {
            Some(o) => match r {
                Some(k) => k@ == "apply"@ && sets_apply(o),
                None => !sets_apply(o),
            },
            None => r is None,
        },
{
    match toml_keys(text) {
        Some(outline) => command_line_only_in(&outline),
        None => None,
    }
}

/// The error reading the configuration file at `path`, holding `text`,
/// comes to when it failed to load with `message`.
///
/// A file that sets a flag only the command line may give is refused
/// for that reason, so the message says where the flag belongs;
/// anything else is unreadable, with the loader's message.
pub fn layer_refusal(text: &str, path: &str, message: String) -> (r: ConfigError)
    ensures
        match toml_outline(text@) {
            Some(o) => if sets_apply(o) {
                r matches ConfigError::CommandLineOnly { path: p, key: k } && p@ == path@ && k@
                    == "apply"@
            } else {
                r matches ConfigError::Unreadable { path: p, message: m } && p@ == path@ && m@
                    == message@
            },
            None => r matches ConfigError::Unreadable { path: p, message: m } && p@ == path@ && m@
                == message@,
        },
{
    match command_line_only_key(text) {
        Some(key) => ConfigError::CommandLineOnly {
            path: String::from_str(path),
            key: String::from_str(key),
        },
        None => ConfigError::Unreadable { path: String::from_str(path), message },
    }
}

} // verus!
