//! How `borax config` writes each setting: in TOML value syntax, so a
//! line of its output can be pasted back into a configuration file.

use vstd::prelude::*;
use crate::config::{
    collision_text, duplicates_text, source_text, KeyColumns, SettingKey, TableDeclaration,
};
use crate::resolution::{source_names, texts, Config};
use crate::text::{decimal_spec, quoted};

verus! {

/// How a boolean is written.
pub open spec fn bool_text(b: bool) -> Seq<char> {
    if b {
        "true"@
    } else {
        "false"@
    }
}

/// How a boolean is written.
pub fn bool_name(b: bool) -> (r: &'static str)
    ensures
        r@ == bool_text(b),
{
    if b {
        "true"
    } else {
        "false"
    }
}

/// `items` separated by a comma and a space.
pub open spec fn joined(items: Seq<Seq<char>>) -> Seq<char>
    decreases items.len(),
{
    if items.len() == 0 {
        Seq::empty()
    } else if items.len() == 1 {
        items[0]
    } else {
        joined(items.drop_last()) + ", "@ + items.last()
    }
}

/// `items` as a TOML array of already-written values.
pub open spec fn bracketed(items: Seq<Seq<char>>) -> Seq<char> {
    "["@ + joined(items) + "]"@
}

/// Each of `items` as a TOML basic string.
pub open spec fn all_quoted(items: Seq<Seq<char>>) -> Seq<Seq<char>> {
    items.map_values(|t: Seq<char>| quoted(t))
}

/// `items`, each already a TOML value, as a TOML array.
pub fn array_of(items: &Vec<String>) -> (r: String)
    ensures
        r@ == bracketed(texts(items@)),
{
    let ghost all = texts(items@);
    let mut body = String::new();
    let mut i: usize = 0;
    while i < items.len()
        invariant
            all == texts(items@),
            i <= items@.len(),
            body@ == joined(all.take(i as int)),
        decreases items@.len() - i,
    {
        proof {
            let next = all.take(i + 1);
            assert(next.drop_last() =~= all.take(i as int));
            assert(next.last() == items@[i as int]@);
            if i == 0 {
                assert(all.take(0) =~= Seq::<Seq<char>>::empty());
            }
        }
        if i > 0 {
            body.append(", ");
        }
        body.append(items[i].as_str());
        i = i + 1;
    }
    assert(all.take(i as int) =~= all);
    let mut r = String::from_str("[");
    r.append(body.as_str());
    r.append("]");
    r
}

/// Each of `items` as a TOML basic string.
pub fn quote_all(items: &Vec<String>) -> (r: Vec<String>)
    ensures
        texts(r@) == all_quoted(texts(items@)),
{
    let mut r: Vec<String> = Vec::new();
    let mut i: usize = 0;
    while i < items.len()
        invariant
            i <= items@.len(),
            texts(r@) == all_quoted(texts(items@)).take(i as int),
        decreases items@.len() - i,
    {
        let q = crate::text::quote(items[i].as_str());
        let ghost before = r@;
        r.push(q);
        proof {
            assert(texts(r@) =~= texts(before).push(q@));
            assert(all_quoted(texts(items@)).take(i + 1) =~= all_quoted(texts(items@)).take(
                i as int,
            ).push(quoted(items@[i as int]@)));
        }
        i = i + 1;
    }
    assert(all_quoted(texts(items@)).take(i as int) =~= all_quoted(texts(items@)));
    r
}

/// An optional path or address as written: quoted, or the empty string
/// when unset, the one form that is not TOML and so cannot be mistaken
/// for a value.
pub open spec fn optional_text(o: Option<String>) -> Seq<char> {
    match o {
        Some(s) => quoted(s@),
        None => Seq::empty(),
    }
}

fn optional(o: &Option<String>) -> (r: String)
    ensures
        r@ == optional_text(*o),
{
    match o {
        Some(s) => crate::text::quote(s.as_str()),
        None => String::new(),
    }
}

/// How `config` writes the single-valued setting `key`.
pub open spec fn rendered(config: Config, key: SettingKey) -> Seq<char> {
    match key {
        SettingKey::BibDuplicates => quoted(duplicates_text(config.duplicates)),
        SettingKey::BibPath => optional_text(config.bib_path),
        SettingKey::BibSidecars => bool_text(config.sidecars),
        SettingKey::CollectionRoot => optional_text(config.collection_root),
        SettingKey::ExtractionPageLimit => decimal_spec(config.page_limit as nat),
        SettingKey::Ledger => bool_text(config.ledger),
        SettingKey::Mailto => optional_text(config.mailto),
        SettingKey::NetworkCache => bool_text(config.cache),
        SettingKey::NetworkConcurrency => decimal_spec(config.concurrency as nat),
        SettingKey::NetworkMinIntervalMs => decimal_spec(config.min_interval_ms as nat),
        SettingKey::RenameCollision => quoted(collision_text(config.collision)),
        SettingKey::RunLog => bool_text(config.run_log),
        SettingKey::Sources => bracketed(all_quoted(source_names(config.sources@))),
    }
}

/// The names of `config`'s sources, each quoted.
fn quoted_sources(config: &Config) -> (r: Vec<String>)
    ensures
        texts(r@) == all_quoted(source_names(config.sources@)),
{
    let mut r: Vec<String> = Vec::new();
    let mut i: usize = 0;
    while i < config.sources.len()
        invariant
            i <= config.sources@.len(),
            texts(r@) == all_quoted(source_names(config.sources@)).take(i as int),
        decreases config.sources@.len() - i,
    {
        let q = crate::text::quote(config.sources[i].as_str());
        let ghost before = r@;
        r.push(q);
        proof {
            assert(texts(r@) =~= texts(before).push(q@));
            assert(all_quoted(source_names(config.sources@)).take(i + 1) =~= all_quoted(
                source_names(config.sources@),
            ).take(i as int).push(quoted(source_text(config.sources@[i as int]))));
        }
        i = i + 1;
    }
    assert(all_quoted(source_names(config.sources@)).take(i as int) =~= all_quoted(
        source_names(config.sources@),
    ));
    r
}

/// How a setting's value is written in TOML value syntax: text quoted,
/// counts in decimal, switches as `true` or `false`, lists as arrays of
/// quoted strings, and an unset value as the empty string.
pub open spec fn written(value: Option<crate::config::SettingValue>) -> Seq<char> {
    match value {
        Some(crate::config::SettingValue::Text(t)) => quoted(t),
        Some(crate::config::SettingValue::Count(n)) => decimal_spec(n),
        Some(crate::config::SettingValue::Flag(b)) => bool_text(b),
        Some(crate::config::SettingValue::List(items)) => bracketed(all_quoted(texts(items))),
        None => Seq::empty(),
    }
}

/// Each setting `borax config` lists is written from its own effective
/// value: the row of every single-valued setting other than the sources
/// is the value of the configuration field that setting names, the
/// field a layer setting that key fills, and the sources row lists the
/// configured sources' names, in order.
pub proof fn each_setting_is_written_from_its_own_value(config: Config, key: SettingKey)
    ensures
        key != SettingKey::Sources ==> rendered(config, key) == written(
            crate::resolution::config_slot(config, key),
        ),
        key == SettingKey::Sources ==> rendered(config, key) == bracketed(
            all_quoted(source_names(config.sources@)),
        ),
{
}

/// `borax config` shows, for each single-valued setting other than the
/// sources, the value the layers give that very setting: what the last
/// layer to set it says, or its built-in value.
pub proof fn listed_values_are_the_layers_values(
    e: crate::resolution::Effective,
    layers: Seq<(crate::config::Origin, crate::config::Layer)>,
    key: SettingKey,
)
    requires
        crate::resolution::resolves_to(e, layers),
        key != SettingKey::Sources,
    ensures
        rendered(e.settings(), key) == written(crate::resolution::resolved_slot(layers, key)),
{
    each_setting_is_written_from_its_own_value(e.settings(), key);
}

/// How `config` writes the single-valued setting `key`.
pub fn render(config: &Config, key: SettingKey) -> (r: String)
    ensures
        r@ == rendered(*config, key),
        key != SettingKey::Sources ==> r@ == written(crate::resolution::config_slot(*config, key)),
{
    proof {
        each_setting_is_written_from_its_own_value(*config, key);
    }
    match key {
        SettingKey::BibDuplicates => crate::text::quote(
            crate::config::duplicates_name(config.duplicates),
        ),
        SettingKey::BibPath => optional(&config.bib_path),
        SettingKey::BibSidecars => String::from_str(bool_name(config.sidecars)),
        SettingKey::CollectionRoot => optional(&config.collection_root),
        SettingKey::ExtractionPageLimit => crate::text::decimal(config.page_limit as u64),
        SettingKey::Ledger => String::from_str(bool_name(config.ledger)),
        SettingKey::Mailto => optional(&config.mailto),
        SettingKey::NetworkCache => String::from_str(bool_name(config.cache)),
        SettingKey::NetworkConcurrency => crate::text::decimal(config.concurrency as u64),
        SettingKey::NetworkMinIntervalMs => crate::text::decimal(config.min_interval_ms),
        SettingKey::RenameCollision => crate::text::quote(
            crate::config::collision_name(config.collision),
        ),
        SettingKey::RunLog => String::from_str(bool_name(config.run_log)),
        SettingKey::Sources => {
            let names = quoted_sources(config);
            array_of(&names)
        },
    }
}

/// How a declaration's key columns are written: one quoted name, or an
/// array of them.
pub open spec fn columns_text(key: KeyColumns) -> Seq<char> {
    match key {
        KeyColumns::One(column) => quoted(column@),
        KeyColumns::Many(columns) => bracketed(all_quoted(texts(columns@))),
    }
}

/// How a declaration's key columns are written.
pub fn columns_value(key: &KeyColumns) -> (r: String)
    ensures
        r@ == columns_text(*key),
{
    match key {
        KeyColumns::One(column) => crate::text::quote(column.as_str()),
        KeyColumns::Many(columns) => {
            let q = quote_all(columns);
            array_of(&q)
        },
    }
}

/// How each of a declaration's fields is written, in the order
/// `path`, `key`, `value`, `values`.
pub open spec fn field_texts(d: TableDeclaration) -> Seq<(Seq<char>, Seq<char>)> {
    seq![
        ("path"@, quoted(d.path@)),
        ("key"@, columns_text(d.key)),
        ("value"@, quoted(d.value@)),
        ("values"@, quoted(
            match d.values {
                crate::config::ValueKindName::Text => "text"@,
                crate::config::ValueKindName::Template => "template"@,
            },
        )),
    ]
}

} // verus!
