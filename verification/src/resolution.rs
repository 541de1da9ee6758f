//! Merging layers of configuration into the settings a run uses.
//!
//! The effective value of every setting is the one from the
//! highest-precedence layer that mentioned it, and the layer it came
//! from is kept alongside it. Merging is pure: [`resolve`] takes layers
//! and returns the effective configuration.

use vstd::prelude::*;
use crate::config::{
    collision_named, collision_text, duplicates_named, duplicates_text, slot, source_named,
    source_text, CollisionPolicy, DuplicatePolicy, Layer, Origin, SettingKey, SettingValue,
    SourceName, TableDeclaration, DEFAULT_CITATION_KEY_TEMPLATE, DEFAULT_CONCURRENCY,
    DEFAULT_FILENAME_TEMPLATE, DEFAULT_MIN_INTERVAL_MS, DEFAULT_PAGE_LIMIT,
};
use crate::dict::Dict;

verus! {

/// Every setting borax runs on, with no absent values left.
#[derive(Debug, Clone, PartialEq, Eq)]
pub struct Config {
    /// Filename templates by entry type; `default` is always present.
    pub templates: Dict<String>,
    /// Citation-key templates by entry type; `default` is always
    /// present.
    pub citation_keys: Dict<String>,
    /// External lookup tables by the name a template addresses them by.
    pub tables: Dict<TableDeclaration>,
    /// Which services may be asked.
    pub sources: Vec<SourceName>,
    /// The contact address sent to the services' polite pools.
    pub mailto: Option<String>,
    /// The directory anchoring the collection's accounting, if
    /// configured.
    pub collection_root: Option<String>,
    /// How many files may be resolved at once.
    pub concurrency: usize,
    /// The floor on the gap between two requests to one service, in
    /// milliseconds.
    pub min_interval_ms: u64,
    /// How many pages of a PDF the text-layer pass reads.
    pub page_limit: usize,
    /// What to do when two files want the same name.
    pub collision: CollisionPolicy,
    /// The master `.bib` file resolved entries are merged into, if any.
    pub bib_path: Option<String>,
    /// What to do when an entry is already in the master `.bib`.
    pub duplicates: DuplicatePolicy,
    /// Whether to write a sidecar next to each renamed file.
    pub sidecars: bool,
    /// Whether to read and write the on-disk response cache.
    pub cache: bool,
    /// Whether the collection's ledger is consulted and added to.
    pub ledger: bool,
    /// Whether a run writes its event stream to a run log.
    pub run_log: bool,
}

/// The characters of an optional string.
pub open spec fn text_of(o: Option<String>) -> Option<Seq<char>> {
    match o {
        Some(s) => Some(s@),
        None => None,
    }
}

/// The value `config` has for the single-valued setting `key`, in the
/// form a layer gives it; `None` for an optional setting left unset.
/// The sources are kept as services rather than names and are not
/// covered here.
pub open spec fn config_slot(config: Config, key: SettingKey) -> Option<SettingValue> {
    match key {
        SettingKey::BibDuplicates => Some(SettingValue::Text(duplicates_text(config.duplicates))),
        SettingKey::BibPath => crate::config::text_value(config.bib_path),
        SettingKey::BibSidecars => Some(SettingValue::Flag(config.sidecars)),
        SettingKey::CollectionRoot => crate::config::text_value(config.collection_root),
        SettingKey::ExtractionPageLimit => Some(SettingValue::Count(config.page_limit as nat)),
        SettingKey::Ledger => Some(SettingValue::Flag(config.ledger)),
        SettingKey::Mailto => crate::config::text_value(config.mailto),
        SettingKey::NetworkCache => Some(SettingValue::Flag(config.cache)),
        SettingKey::NetworkConcurrency => Some(SettingValue::Count(config.concurrency as nat)),
        SettingKey::NetworkMinIntervalMs => Some(
            SettingValue::Count(config.min_interval_ms as nat),
        ),
        SettingKey::RenameCollision => Some(SettingValue::Text(collision_text(config.collision))),
        SettingKey::RunLog => Some(SettingValue::Flag(config.run_log)),
        SettingKey::Sources => None,
    }
}

/// The built-in value of the single-valued setting `key`.
pub open spec fn default_slot(key: SettingKey) -> Option<SettingValue> {
    match key {
        SettingKey::BibDuplicates => Some(SettingValue::Text("skip"@)),
        SettingKey::BibPath => None,
        SettingKey::BibSidecars => Some(SettingValue::Flag(false)),
        SettingKey::CollectionRoot => None,
        SettingKey::ExtractionPageLimit => Some(SettingValue::Count(DEFAULT_PAGE_LIMIT as nat)),
        SettingKey::Ledger => Some(SettingValue::Flag(true)),
        SettingKey::Mailto => None,
        SettingKey::NetworkCache => Some(SettingValue::Flag(true)),
        SettingKey::NetworkConcurrency => Some(SettingValue::Count(DEFAULT_CONCURRENCY as nat)),
        SettingKey::NetworkMinIntervalMs => Some(
            SettingValue::Count(DEFAULT_MIN_INTERVAL_MS as nat),
        ),
        SettingKey::RenameCollision => Some(SettingValue::Text("suffix"@)),
        SettingKey::RunLog => Some(SettingValue::Flag(true)),
        SettingKey::Sources => None,
    }
}

/// The names of `sources`, in order.
pub open spec fn source_names(sources: Seq<SourceName>) -> Seq<Seq<char>> {
    sources.map_values(|s: SourceName| source_text(s))
}

/// The built-in template table: `default` alone, holding `template`.
pub open spec fn only_default(d: Dict<String>, template: Seq<char>) -> bool {
    &&& d.wf()
    &&& forall|k: Seq<char>|
        #![trigger d.get_spec(k)]
        text_of(d.get_spec(k)) == (if k == "default"@ {
            Some(template)
        } else {
            None
        })
}

/// Whether `config` is the built-in configuration: the default
/// templates, every service, no contact address, master `.bib` or
/// configured root, and the default value of every other setting.
pub open spec fn is_default(config: Config) -> bool {
    &&& only_default(config.templates, DEFAULT_FILENAME_TEMPLATE@)
    &&& only_default(config.citation_keys, DEFAULT_CITATION_KEY_TEMPLATE@)
    &&& config.tables.wf()
    &&& config.tables.entries@.len() == 0
    &&& config.sources@ == crate::config::supported_sources()
    &&& forall|key: SettingKey| #[trigger] config_slot(config, key) == default_slot(key)
}

/// The table holding `template` under `default` and nothing else.
fn default_table(template: &str) -> (d: Dict<String>)
    ensures
        only_default(d, template@),
{
    let mut d = Dict::new();
    d.insert(String::from_str("default"), String::from_str(template));
    proof {
        reveal_strlit("default");
    }
    d
}

impl Default for Config {
    /// The built-in defaults: the lowest layer, and the configuration a
    /// run with no configuration file, environment or flags uses.
    fn default() -> (c: Config)
        ensures
            is_default(c),
    {
        let c = Config {
            templates: default_table(DEFAULT_FILENAME_TEMPLATE),
            citation_keys: default_table(DEFAULT_CITATION_KEY_TEMPLATE),
            tables: Dict::new(),
            sources: crate::config::all_sources(),
            mailto: None,
            collection_root: None,
            concurrency: DEFAULT_CONCURRENCY,
            min_interval_ms: DEFAULT_MIN_INTERVAL_MS,
            page_limit: DEFAULT_PAGE_LIMIT,
            collision: CollisionPolicy::Suffix,
            bib_path: None,
            duplicates: DuplicatePolicy::Skip,
            sidecars: false,
            cache: true,
            ledger: true,
            run_log: true,
        };
        assert forall|key: SettingKey| #[trigger] config_slot(c, key) == default_slot(key) by {}
        c
    }
}

/// The position of the last of `layers` that sets `key`.
pub open spec fn winner(layers: Seq<(Origin, Layer)>, key: SettingKey) -> Option<int>
    decreases layers.len(),
{
    if layers.len() == 0 {
        None
    } else if slot(layers.last().1, key) is Some {
        Some(layers.len() - 1)
    } else {
        winner(layers.drop_last(), key)
    }
}

proof fn lemma_winner_bounds(layers: Seq<(Origin, Layer)>, key: SettingKey)
    ensures
        winner(layers, key) matches Some(i) ==> 0 <= i < layers.len() && slot(
            layers[i].1,
            key,
        ) is Some,
    decreases layers.len(),
{
    if layers.len() > 0 && slot(layers.last().1, key) is None {
        lemma_winner_bounds(layers.drop_last(), key);
    }
}

/// What the highest-precedence layer that mentions `key` says of it.
pub open spec fn winning_value(layers: Seq<(Origin, Layer)>, key: SettingKey) -> Option<
    SettingValue,
> {
    match winner(layers, key) {
        Some(i) => slot(layers[i].1, key),
        None => None,
    }
}

/// Where the effective value of `key` came from: the last layer that
/// set it, or the defaults.
pub open spec fn winning_origin(layers: Seq<(Origin, Layer)>, key: SettingKey) -> Origin {
    match winner(layers, key) {
        Some(i) => layers[i].0,
        None => Origin::Default,
    }
}

/// Whether `layer` says anything about `key`.
pub fn sets(layer: &Layer, key: SettingKey) -> (r: bool)
    ensures
        r == slot(*layer, key) is Some,
{
    match key {
        SettingKey::BibDuplicates => match &layer.bib {
            Some(bib) => bib.duplicates.is_some(),
            None => false,
        },
        SettingKey::BibPath => match &layer.bib {
            Some(bib) => bib.path.is_some(),
            None => false,
        },
        SettingKey::BibSidecars => match &layer.bib {
            Some(bib) => bib.sidecars.is_some(),
            None => false,
        },
        SettingKey::CollectionRoot => layer.collection_root.is_some(),
        SettingKey::ExtractionPageLimit => match &layer.extraction {
            Some(extraction) => extraction.page_limit.is_some(),
            None => false,
        },
        SettingKey::Ledger => layer.ledger.is_some(),
        SettingKey::Mailto => layer.mailto.is_some(),
        SettingKey::NetworkCache => match &layer.network {
            Some(network) => network.cache.is_some(),
            None => false,
        },
        SettingKey::NetworkConcurrency => match &layer.network {
            Some(network) => network.concurrency.is_some(),
            None => false,
        },
        SettingKey::NetworkMinIntervalMs => match &layer.network {
            Some(network) => network.min_interval_ms.is_some(),
            None => false,
        },
        SettingKey::RenameCollision => match &layer.rename {
            Some(rename) => rename.collision.is_some(),
            None => false,
        },
        SettingKey::RunLog => layer.run_log.is_some(),
        SettingKey::Sources => layer.sources.is_some(),
    }
}

/// The position of the last of `layers` that sets `key`.
pub fn winner_of(layers: &Vec<(Origin, Layer)>, key: SettingKey) -> (r: Option<usize>)
    ensures
        r matches Some(i) ==> winner(layers@, key) == Some(i as int),
        r is None ==> winner(layers@, key) is None,
{
    let mut i = layers.len();
    assert(layers@.take(i as int) =~= layers@);
    while i > 0
        invariant
            i <= layers@.len(),
            winner(layers@, key) == winner(layers@.take(i as int), key),
        decreases i,
    {
        let ghost prefix = layers@.take(i as int);
        assert(prefix.last() == layers@[i - 1]);
        assert(prefix.drop_last() =~= layers@.take(i - 1));
        if sets(&layers[i - 1].1, key) {
            return Some(i - 1);
        }
        i = i - 1;
    }
    assert(layers@.take(0) =~= Seq::<(Origin, Layer)>::empty());
    None
}

/// Whether the tables `layer` carries are each in key order.
pub open spec fn layer_wf(layer: Layer) -> bool {
    &&& (layer.templates matches Some(d) ==> d.wf())
    &&& (layer.citation_keys matches Some(d) ==> d.wf())
    &&& (layer.tables matches Some(d) ==> d.wf())
}

/// The filename templates of `layer` when `citation` is false, its
/// citation-key templates when it is true.
pub open spec fn template_table(layer: Layer, citation: bool) -> Option<Dict<String>> {
    if citation {
        layer.citation_keys
    } else {
        layer.templates
    }
}

/// The template the last of `layers` to define one for entry type `k`
/// gives it, with that layer's origin.
pub open spec fn newest_template(layers: Seq<(Origin, Layer)>, citation: bool, k: Seq<char>) -> Option<
    (Origin, String),
>
    decreases layers.len(),
{
    if layers.len() == 0 {
        None
    } else {
        match newest_template(layers.skip(1), citation, k) {
            Some(w) => Some(w),
            None => match template_table(layers[0].1, citation) {
                Some(d) => match d.get_spec(k) {
                    Some(v) => Some((layers[0].0, v)),
                    None => None,
                },
                None => None,
            },
        }
    }
}

/// The declaration the last of `layers` to declare table `k` gives it,
/// with that layer's origin.
pub open spec fn newest_table(layers: Seq<(Origin, Layer)>, k: Seq<char>) -> Option<
    (Origin, TableDeclaration),
>
    decreases layers.len(),
{
    if layers.len() == 0 {
        None
    } else {
        match newest_table(layers.skip(1), k) {
            Some(w) => Some(w),
            None => match layers[0].1.tables {
                Some(d) => match d.get_spec(k) {
                    Some(v) => Some((layers[0].0, v)),
                    None => None,
                },
                None => None,
            },
        }
    }
}

/// Add to `acc` what `d` holds under keys `acc` lacks, recording
/// `origin` in `origins` for each key added.
fn absorb<V>(acc: &mut Dict<V>, origins: &mut Dict<Origin>, d: Dict<V>, origin: &Origin)
    requires
        old(acc).wf(),
        old(origins).wf(),
        d.wf(),
    ensures
        final(acc).wf(),
        final(origins).wf(),
        forall|k: Seq<char>|
            #![trigger final(acc).get_spec(k)]
            final(acc).get_spec(k) == match old(acc).get_spec(k) {
                Some(v) => Some(v),
                None => d.get_spec(k),
            },
        forall|k: Seq<char>|
            #![trigger final(origins).get_spec(k)]
            final(origins).get_spec(k) == (if old(acc).get_spec(k) is None && d.get_spec(
                k,
            ) is Some {
                Some(*origin)
            } else {
                old(origins).get_spec(k)
            }),
{
    let ghost acc0 = *acc;
    let ghost origins0 = *origins;
    let ghost all = d.entries@;
    let mut entries = d.entries;
    while entries.len() > 0
        invariant
            crate::dict::sorted(all),
            entries@ == all.take(entries@.len() as int),
            entries@.len() <= all.len(),
            acc.wf(),
            origins.wf(),
            forall|k: Seq<char>|
                #![trigger acc.get_spec(k)]
                acc.get_spec(k) == match acc0.get_spec(k) {
                    Some(v) => Some(v),
                    None => crate::dict::find(all.skip(entries@.len() as int), k),
                },
            forall|k: Seq<char>|
                #![trigger origins.get_spec(k)]
                origins.get_spec(k) == (if acc0.get_spec(k) is None && crate::dict::find(
                    all.skip(entries@.len() as int),
                    k,
                ) is Some {
                    Some(*origin)
                } else {
                    origins0.get_spec(k)
                }),
        decreases entries@.len(),
    {
        let ghost j = entries@.len() - 1;
        let (key, value) = entries.pop().unwrap();
        let ghost kk = key@;
        proof {
            assert(all[j] == (key, value));
            let later = all.skip(j + 1);
            assert forall|m: int| 0 <= m < later.len() implies later[m].0@ != kk by {
                assert(later[m] == all[j + 1 + m]);
                crate::dict::lemma_less_irreflexive(kk);
                crate::dict::lemma_less_asymmetric(kk, later[m].0@);
            }
            crate::dict::lemma_find_absent(later, kk);
            let now = all.skip(j);
            assert(now[0] == all[j]);
            assert(now.skip(1) =~= later);
        }
        if !acc.contains_key(key.as_str()) {
            origins.insert(key.clone(), origin.duplicate());
            acc.insert(key, value);
        }
    }
    assert(all.skip(0) =~= all);
}

/// The value part of a winner.
pub open spec fn won<V>(w: Option<(Origin, V)>) -> Option<V> {
    match w {
        Some((_, v)) => Some(v),
        None => None,
    }
}

/// The origin part of a winner.
pub open spec fn won_from<V>(w: Option<(Origin, V)>) -> Option<Origin> {
    match w {
        Some((o, _)) => Some(o),
        None => None,
    }
}

/// The open-ended tables of a set of layers, merged per key.
struct Merged {
    templates: Dict<String>,
    template_origins: Dict<Origin>,
    citation_keys: Dict<String>,
    citation_origins: Dict<Origin>,
    tables: Dict<TableDeclaration>,
    table_origins: Dict<Origin>,
}

/// Whether `m` holds, for every key, what the last of `layers` to
/// define that key gives it, and that layer's origin.
spec fn merged_from(m: Merged, layers: Seq<(Origin, Layer)>) -> bool {
    &&& m.templates.wf()
    &&& m.template_origins.wf()
    &&& m.citation_keys.wf()
    &&& m.citation_origins.wf()
    &&& m.tables.wf()
    &&& m.table_origins.wf()
    &&& forall|k: Seq<char>|
        #![trigger m.templates.get_spec(k)]
        m.templates.get_spec(k) == won(newest_template(layers, false, k))
    &&& forall|k: Seq<char>|
        #![trigger m.template_origins.get_spec(k)]
        m.template_origins.get_spec(k) == won_from(newest_template(layers, false, k))
    &&& forall|k: Seq<char>|
        #![trigger m.citation_keys.get_spec(k)]
        m.citation_keys.get_spec(k) == won(newest_template(layers, true, k))
    &&& forall|k: Seq<char>|
        #![trigger m.citation_origins.get_spec(k)]
        m.citation_origins.get_spec(k) == won_from(newest_template(layers, true, k))
    &&& forall|k: Seq<char>|
        #![trigger m.tables.get_spec(k)]
        m.tables.get_spec(k) == won(newest_table(layers, k))
    &&& forall|k: Seq<char>|
        #![trigger m.table_origins.get_spec(k)]
        m.table_origins.get_spec(k) == won_from(newest_table(layers, k))
}

/// The templates, citation-key templates and lookup tables of `layers`,
/// merged per key so that a later layer's entry wins over an earlier
/// one's and every key keeps the origin of the layer that won.
fn merge_tables(layers: Vec<(Origin, Layer)>) -> (m: Merged)
    requires
        forall|i: int| 0 <= i < layers@.len() ==> layer_wf(#[trigger] layers@[i].1),
    ensures
        merged_from(m, layers@),
{
    let ghost all = layers@;
    let mut rest = layers;
    let mut m = Merged {
        templates: Dict::new(),
        template_origins: Dict::new(),
        citation_keys: Dict::new(),
        citation_origins: Dict::new(),
        tables: Dict::new(),
        table_origins: Dict::new(),
    };
    proof {
        assert(all.skip(all.len() as int) =~= Seq::<(Origin, Layer)>::empty());
        assert(all.take(all.len() as int) =~= all);
    }
    while rest.len() > 0
        invariant
            rest@.len() <= all.len(),
            rest@ == all.take(rest@.len() as int),
            forall|i: int| 0 <= i < all.len() ==> layer_wf(#[trigger] all[i].1),
            merged_from(m, all.skip(rest@.len() as int)),
        decreases rest@.len(),
    {
        let ghost n = rest@.len() - 1;
        let (origin, layer) = rest.pop().unwrap();
        proof {
            assert(all[n] == (origin, layer));
            let now = all.skip(n);
            assert(now[0] == all[n]);
            assert(now.skip(1) =~= all.skip(n + 1));
            assert(layer_wf(all[n].1));
        }
        let Layer { templates, citation_keys, tables, .. } = layer;
        if let Some(d) = templates {
            absorb(&mut m.templates, &mut m.template_origins, d, &origin);
        }
        if let Some(d) = citation_keys {
            absorb(&mut m.citation_keys, &mut m.citation_origins, d, &origin);
        }
        if let Some(d) = tables {
            absorb(&mut m.tables, &mut m.table_origins, d, &origin);
        }
    }
    assert(all.skip(0) =~= all);
    m
}

/// The text `layer` gives the text-valued setting `key`.
fn read_text(layer: &Layer, key: SettingKey) -> (r: Option<String>)
    ensures
        text_of(r) == match slot(*layer, key) {
            Some(SettingValue::Text(t)) => Some(t),
            _ => None,
        },
{
    match key {
        SettingKey::BibDuplicates => match &layer.bib {
            Some(bib) => match &bib.duplicates {
                Some(v) => Some(v.clone()),
                None => None,
            },
            None => None,
        },
        SettingKey::BibPath => match &layer.bib {
            Some(bib) => match &bib.path {
                Some(v) => Some(v.clone()),
                None => None,
            },
            None => None,
        },
        SettingKey::CollectionRoot => match &layer.collection_root {
            Some(v) => Some(v.clone()),
            None => None,
        },
        SettingKey::Mailto => match &layer.mailto {
            Some(v) => Some(v.clone()),
            None => None,
        },
        SettingKey::RenameCollision => match &layer.rename {
            Some(rename) => match &rename.collision {
                Some(v) => Some(v.clone()),
                None => None,
            },
            None => None,
        },
        _ => None,
    }
}

/// The flag `layer` gives the boolean setting `key`.
fn read_flag(layer: &Layer, key: SettingKey) -> (r: Option<bool>)
    ensures
        r == match slot(*layer, key) {
            Some(SettingValue::Flag(b)) => Some(b),
            _ => None,
        },
{
    match key {
        SettingKey::BibSidecars => match &layer.bib {
            Some(bib) => bib.sidecars,
            None => None,
        },
        SettingKey::Ledger => layer.ledger,
        SettingKey::NetworkCache => match &layer.network {
            Some(network) => network.cache,
            None => None,
        },
        SettingKey::RunLog => layer.run_log,
        _ => None,
    }
}

/// The count `layer` gives the page limit or the concurrency.
fn read_size(layer: &Layer, key: SettingKey) -> (r: Option<usize>)
    requires
        key == SettingKey::ExtractionPageLimit || key == SettingKey::NetworkConcurrency,
    ensures
        match slot(*layer, key) {
            Some(SettingValue::Count(n)) => r matches Some(v) && v as nat == n,
            _ => r is None,
        },
{
    match key {
        SettingKey::ExtractionPageLimit => match &layer.extraction {
            Some(extraction) => extraction.page_limit,
            None => None,
        },
        _ => match &layer.network {
            Some(network) => network.concurrency,
            None => None,
        },
    }
}

/// The interval `layer` gives between two requests to one service.
fn read_millis(layer: &Layer) -> (r: Option<u64>)
    ensures
        match slot(*layer, SettingKey::NetworkMinIntervalMs) {
            Some(SettingValue::Count(n)) => r matches Some(v) && v as nat == n,
            _ => r is None,
        },
{
    match &layer.network {
        Some(network) => network.min_interval_ms,
        None => None,
    }
}

/// The source names `layer` gives.
fn read_list(layer: &Layer) -> (r: Option<Vec<String>>)
    ensures
        match slot(*layer, SettingKey::Sources) {
            Some(SettingValue::List(names)) => r matches Some(v) && v@ == names,
            _ => r is None,
        },
{
    match &layer.sources {
        Some(names) => Some(crate::config::copy_strings(names)),
        None => None,
    }
}

/// The text the winning layer gives the text-valued setting `key`.
pub open spec fn winning_text(layers: Seq<(Origin, Layer)>, key: SettingKey) -> Option<Seq<char>> {
    match winning_value(layers, key) {
        Some(SettingValue::Text(t)) => Some(t),
        _ => None,
    }
}

/// The flag the winning layer gives the boolean setting `key`.
pub open spec fn winning_flag(layers: Seq<(Origin, Layer)>, key: SettingKey) -> Option<bool> {
    match winning_value(layers, key) {
        Some(SettingValue::Flag(b)) => Some(b),
        _ => None,
    }
}

/// The count the winning layer gives the numeric setting `key`.
pub open spec fn winning_count(layers: Seq<(Origin, Layer)>, key: SettingKey) -> Option<nat> {
    match winning_value(layers, key) {
        Some(SettingValue::Count(n)) => Some(n),
        _ => None,
    }
}

/// The source names the winning layer gives.
pub open spec fn winning_names(layers: Seq<(Origin, Layer)>) -> Option<Seq<String>> {
    match winning_value(layers, SettingKey::Sources) {
        Some(SettingValue::List(names)) => Some(names),
        _ => None,
    }
}

fn text_winner(layers: &Vec<(Origin, Layer)>, key: SettingKey) -> (r: Option<String>)
    ensures
        text_of(r) == winning_text(layers@, key),
{
    proof {
        lemma_winner_bounds(layers@, key);
    }
    match winner_of(layers, key) {
        Some(i) => read_text(&layers[i].1, key),
        None => None,
    }
}

fn flag_winner(layers: &Vec<(Origin, Layer)>, key: SettingKey) -> (r: Option<bool>)
    ensures
        r == winning_flag(layers@, key),
{
    proof {
        lemma_winner_bounds(layers@, key);
    }
    match winner_of(layers, key) {
        Some(i) => read_flag(&layers[i].1, key),
        None => None,
    }
}

fn size_winner(layers: &Vec<(Origin, Layer)>, key: SettingKey) -> (r: Option<usize>)
    requires
        key == SettingKey::ExtractionPageLimit || key == SettingKey::NetworkConcurrency,
    ensures
        match winning_count(layers@, key) {
            Some(n) => r matches Some(v) && v as nat == n,
            None => r is None,
        },
{
    proof {
        lemma_winner_bounds(layers@, key);
    }
    match winner_of(layers, key) {
        Some(i) => read_size(&layers[i].1, key),
        None => None,
    }
}

fn millis_winner(layers: &Vec<(Origin, Layer)>) -> (r: Option<u64>)
    ensures
        match winning_count(layers@, SettingKey::NetworkMinIntervalMs) {
            Some(n) => r matches Some(v) && v as nat == n,
            None => r is None,
        },
{
    proof {
        lemma_winner_bounds(layers@, SettingKey::NetworkMinIntervalMs);
    }
    match winner_of(layers, SettingKey::NetworkMinIntervalMs) {
        Some(i) => read_millis(&layers[i].1),
        None => None,
    }
}

fn list_winner(layers: &Vec<(Origin, Layer)>) -> (r: Option<Vec<String>>)
    ensures
        match winning_names(layers@) {
            Some(names) => r matches Some(v) && v@ == names,
            None => r is None,
        },
{
    proof {
        lemma_winner_bounds(layers@, SettingKey::Sources);
    }
    match winner_of(layers, SettingKey::Sources) {
        Some(i) => read_list(&layers[i].1),
        None => None,
    }
}

/// The position of `key` in [`crate::config::setting_keys`].
pub open spec fn key_index(key: SettingKey) -> int {
    match key {
        SettingKey::BibDuplicates => 0,
        SettingKey::BibPath => 1,
        SettingKey::BibSidecars => 2,
        SettingKey::CollectionRoot => 3,
        SettingKey::ExtractionPageLimit => 4,
        SettingKey::Ledger => 5,
        SettingKey::Mailto => 6,
        SettingKey::NetworkCache => 7,
        SettingKey::NetworkConcurrency => 8,
        SettingKey::NetworkMinIntervalMs => 9,
        SettingKey::RenameCollision => 10,
        SettingKey::RunLog => 11,
        SettingKey::Sources => 12,
    }
}

proof fn lemma_key_index(key: SettingKey)
    ensures
        0 <= key_index(key) < 13,
        crate::config::setting_keys()[key_index(key)] == key,
{
}

/// The origin of every single-valued setting, in key order.
fn setting_origins(layers: &Vec<(Origin, Layer)>) -> (r: Vec<Origin>)
    ensures
        r@.len() == 13,
        forall|key: SettingKey| #[trigger] r@[key_index(key)] == winning_origin(layers@, key),
{
    let keys = crate::config::settings_in_order();
    let mut r: Vec<Origin> = Vec::new();
    let mut j: usize = 0;
    while j < keys.len()
        invariant
            keys@ == crate::config::setting_keys(),
            j <= keys@.len(),
            r@.len() == j,
            forall|m: int| 0 <= m < j ==> r@[m] == winning_origin(layers@, #[trigger] keys@[m]),
        decreases keys@.len() - j,
    {
        let key = keys[j];
        proof {
            lemma_winner_bounds(layers@, key);
        }
        match winner_of(layers, key) {
            Some(i) => r.push(layers[i].0.duplicate()),
            None => r.push(Origin::Default),
        }
        j = j + 1;
    }
    assert forall|key: SettingKey| #[trigger] r@[key_index(key)] == winning_origin(layers@, key) by {
        lemma_key_index(key);
    }
    r
}

/// The characters of each of `names`.
pub open spec fn texts(names: Seq<String>) -> Seq<Seq<char>> {
    names.map_values(|s: String| s@)
}

/// The first of `names` that names no service borax speaks to.
pub open spec fn first_unknown(names: Seq<Seq<char>>) -> Option<Seq<char>>
    decreases names.len(),
{
    if names.len() == 0 {
        None
    } else if source_named(names[0]) is None {
        Some(names[0])
    } else {
        first_unknown(names.skip(1))
    }
}

/// The services `names` name, or the first name that names none.
fn parse_sources(names: &Vec<String>) -> (r: Result<Vec<SourceName>, String>)
    ensures
        match first_unknown(texts(names@)) {
            None => r matches Ok(v) && crate::resolution::source_names(v@) == texts(names@),
            Some(bad) => r matches Err(e) && e@ == bad,
        },
{
    let ghost all = texts(names@);
    let mut v: Vec<SourceName> = Vec::new();
    let mut i: usize = 0;
    assert(all.skip(0) =~= all);
    while i < names.len()
        invariant
            all == texts(names@),
            i <= names@.len(),
            source_names(v@) == all.take(i as int),
            first_unknown(all) == first_unknown(all.skip(i as int)),
        decreases names@.len() - i,
    {
        proof {
            let rest = all.skip(i as int);
            assert(rest[0] == names@[i as int]@);
            assert(rest.skip(1) =~= all.skip(i + 1));
        }
        match SourceName::parse(names[i].as_str()) {
            Some(source) => {
                let ghost before = v@;
                v.push(source);
                proof {
                    assert(source_text(source) == names@[i as int]@);
                    assert(v@ == before.push(source));
                    assert(source_names(v@) =~= source_names(before).push(source_text(source)));
                    assert(all.take(i + 1) =~= all.take(i as int).push(all[i as int]));
                }
            },
            None => {
                return Err(names[i].clone());
            },
        }
        i = i + 1;
    }
    proof {
        assert(all.take(i as int) =~= all);
        assert(all.skip(i as int) =~= Seq::<Seq<char>>::empty());
    }
    Ok(v)
}

/// Why a configuration could not be assembled.
#[derive(Debug, Clone, PartialEq, Eq)]
pub enum ConfigError {
    /// A file was not TOML, or held a key borax does not know.
    Unreadable { path: String, message: String },
    /// A value is of the right type but not one of the accepted values.
    Invalid { key: String, origin: Origin, message: String },
    /// An environment variable carries the prefix but no known key
    /// follows it; `name` is the variable without its prefix.
    UnknownEnv { name: String },
    /// A file sets a key that exists only as a command-line flag.
    CommandLineOnly { path: String, key: String },
}

/// How an error reads.
pub open spec fn error_text(e: ConfigError) -> Seq<char> {
    match e {
        ConfigError::Unreadable { path, message } => path@ + ": "@ + message@,
        ConfigError::Invalid { key, origin, message } => key@ + " ("@
            + crate::config::origin_text(origin) + "): "@ + message@,
        ConfigError::UnknownEnv { name } => "BORAX_"@ + name@ + " names no setting"@,
        ConfigError::CommandLineOnly { path, key } => path@ + ": `"@ + key@
            + "` must be passed on the command line and cannot be set in a configuration file"@,
    }
}

impl ConfigError {
    /// How this error reads.
    pub fn text(&self) -> (r: String)
        ensures
            r@ == error_text(*self),
    {
        match self {
            ConfigError::Unreadable { path, message } => {
                let mut r = crate::text::concat2(path.as_str(), ": ");
                r.append(message.as_str());
                r
            },
            ConfigError::Invalid { key, origin, message } => {
                let mut r = crate::text::concat2(key.as_str(), " (");
                let o = origin.text();
                r.append(o.as_str());
                r.append("): ");
                r.append(message.as_str());
                r
            },
            ConfigError::UnknownEnv { name } => {
                let mut r = crate::text::concat2(crate::config::ENV_PREFIX, name.as_str());
                r.append(" names no setting");
                r
            },
            ConfigError::CommandLineOnly { path, key } => {
                let mut r = crate::text::concat2(path.as_str(), ": `");
                r.append(key.as_str());
                r.append(
                    "` must be passed on the command line and cannot be set in a configuration file",
                );
                r
            },
        }
    }
}

/// Whether `e` says that the setting `key`, set by `origin`, holds a
/// value it cannot take, in the words `message`.
pub open spec fn is_invalid(e: ConfigError, key: Seq<char>, origin: Origin, message: Seq<char>) -> bool {
    e matches ConfigError::Invalid { key: k, origin: o, message: m } && k@ == key && o == origin
        && m@ == message
}

/// A resolved configuration and the origin of every value in it.
#[derive(Debug)]
pub struct Effective {
    config: Config,
    setting_origins: Vec<Origin>,
    template_origins: Dict<Origin>,
    citation_origins: Dict<Origin>,
    table_origins: Dict<Origin>,
}

impl Effective {
    #[verifier::type_invariant]
    spec fn well_formed(self) -> bool {
        &&& self.setting_origins@.len() == 13
        &&& self.template_origins.wf()
        &&& self.citation_origins.wf()
        &&& self.table_origins.wf()
        &&& self.config.templates.wf()
        &&& self.config.citation_keys.wf()
        &&& self.config.tables.wf()
    }

    /// The settings to run with.
    pub closed spec fn settings(&self) -> Config {
        self.config
    }

    /// Which layer supplied the single-valued setting `key`.
    pub closed spec fn setting_origin(&self, key: SettingKey) -> Origin {
        self.setting_origins@[key_index(key)]
    }

    /// Which layer supplied the template for entry type `k`: a filename
    /// template when `citation` is false, a citation-key one when true.
    pub closed spec fn template_origin(&self, citation: bool, k: Seq<char>) -> Option<Origin> {
        if citation {
            self.citation_origins.get_spec(k)
        } else {
            self.template_origins.get_spec(k)
        }
    }

    /// Which layer declared the lookup table `k`.
    pub closed spec fn table_origin(&self, k: Seq<char>) -> Option<Origin> {
        self.table_origins.get_spec(k)
    }

    /// The settings to run with.
    pub fn config(&self) -> (r: &Config)
        ensures
            *r == self.settings(),
            r.templates.wf(),
            r.citation_keys.wf(),
            r.tables.wf(),
    {
        proof {
            use_type_invariant(self);
        }
        &self.config
    }
}

/// The effective value of `key` under `layers`: what the last layer to
/// set it says, or the built-in value when none does.
pub open spec fn resolved_slot(layers: Seq<(Origin, Layer)>, key: SettingKey) -> Option<
    SettingValue,
> {
    match winning_value(layers, key) {
        Some(v) => Some(v),
        None => default_slot(key),
    }
}

/// The names of the effective sources under `layers`.
pub open spec fn resolved_sources(layers: Seq<(Origin, Layer)>) -> Seq<Seq<char>> {
    match winning_names(layers) {
        Some(names) => texts(names),
        None => source_names(crate::config::supported_sources()),
    }
}

/// The built-in template of the given kind.
pub open spec fn default_template(citation: bool) -> Seq<char> {
    if citation {
        DEFAULT_CITATION_KEY_TEMPLATE@
    } else {
        DEFAULT_FILENAME_TEMPLATE@
    }
}

/// The effective template for entry type `k` under `layers`.
pub open spec fn resolved_template(layers: Seq<(Origin, Layer)>, citation: bool, k: Seq<char>) -> Option<
    Seq<char>,
> {
    match newest_template(layers, citation, k) {
        Some((_, t)) => Some(t@),
        None => if k == "default"@ {
            Some(default_template(citation))
        } else {
            None
        },
    }
}

/// Where the effective template for entry type `k` came from.
pub open spec fn resolved_template_origin(
    layers: Seq<(Origin, Layer)>,
    citation: bool,
    k: Seq<char>,
) -> Option<Origin> {
    match newest_template(layers, citation, k) {
        Some((o, _)) => Some(o),
        None => if k == "default"@ {
            Some(Origin::Default)
        } else {
            None
        },
    }
}

/// Whether `e` is what merging `layers` gives: every setting takes the
/// value of the last layer that set it, or its default, and keeps that
/// layer as its origin; templates and tables merge per key the same
/// way.
pub open spec fn resolves_to(e: Effective, layers: Seq<(Origin, Layer)>) -> bool {
    &&& forall|key: SettingKey|
        key != SettingKey::Sources ==> #[trigger] config_slot(e.settings(), key) == resolved_slot(
            layers,
            key,
        )
    &&& source_names(e.settings().sources@) == resolved_sources(layers)
    &&& forall|key: SettingKey| #[trigger] e.setting_origin(key) == winning_origin(layers, key)
    &&& forall|k: Seq<char>|
        #[trigger] text_of(e.settings().templates.get_spec(k)) == resolved_template(
            layers,
            false,
            k,
        )
    &&& forall|k: Seq<char>|
        #[trigger] text_of(e.settings().citation_keys.get_spec(k)) == resolved_template(
            layers,
            true,
            k,
        )
    &&& forall|citation: bool, k: Seq<char>|
        #[trigger] e.template_origin(citation, k) == resolved_template_origin(layers, citation, k)
    &&& forall|k: Seq<char>| #[trigger] e.settings().tables.get_spec(k) == won(newest_table(layers, k))
    &&& forall|k: Seq<char>| #[trigger] e.table_origin(k) == won_from(newest_table(layers, k))
}

/// The first source name under `layers` that names no service.
pub open spec fn sources_error(layers: Seq<(Origin, Layer)>) -> Option<Seq<char>> {
    match winning_names(layers) {
        Some(names) => first_unknown(texts(names)),
        None => None,
    }
}

/// The winning collision policy under `layers`, when it names none.
pub open spec fn collision_error(layers: Seq<(Origin, Layer)>) -> Option<Seq<char>> {
    match winning_text(layers, SettingKey::RenameCollision) {
        Some(t) => if collision_named(t) is None {
            Some(t)
        } else {
            None
        },
        None => None,
    }
}

/// The winning duplicate policy under `layers`, when it names none.
pub open spec fn duplicates_error(layers: Seq<(Origin, Layer)>) -> Option<Seq<char>> {
    match winning_text(layers, SettingKey::BibDuplicates) {
        Some(t) => if duplicates_named(t) is None {
            Some(t)
        } else {
            None
        },
        None => None,
    }
}

/// The error merging `layers` fails with, checked in this order: the
/// sources, the collision policy, the duplicate policy.
pub open spec fn resolve_error(e: ConfigError, layers: Seq<(Origin, Layer)>) -> bool {
    match sources_error(layers) {
        Some(name) => is_invalid(
            e,
            "sources"@,
            winning_origin(layers, SettingKey::Sources),
            "unknown source "@ + crate::text::debug_text(name) + ", expected one of "@
                + "\"crossref\", \"openalex\", \"arxiv\""@,
        ),
        None => match collision_error(layers) {
            Some(t) => is_invalid(
                e,
                "rename.collision"@,
                winning_origin(layers, SettingKey::RenameCollision),
                "expected suffix or skip, got "@ + crate::text::debug_text(t),
            ),
            None => match duplicates_error(layers) {
                Some(t) => is_invalid(
                    e,
                    "bib.duplicates"@,
                    winning_origin(layers, SettingKey::BibDuplicates),
                    "expected skip or update, got "@ + crate::text::debug_text(t),
                ),
                None => false,
            },
        },
    }
}

/// Hold `template` under `default` in `acc` unless it holds something
/// there already, with the defaults as its origin.
fn fill_default(acc: &mut Dict<String>, origins: &mut Dict<Origin>, template: &str)
    requires
        old(acc).wf(),
        old(origins).wf(),
    ensures
        final(acc).wf(),
        final(origins).wf(),
        forall|k: Seq<char>|
            #![trigger final(acc).get_spec(k)]
            text_of(final(acc).get_spec(k)) == match old(acc).get_spec(k) {
                Some(v) => Some(v@),
                None => if k == "default"@ {
                    Some(template@)
                } else {
                    None
                },
            },
        forall|k: Seq<char>|
            #![trigger final(origins).get_spec(k)]
            final(origins).get_spec(k) == (if old(acc).get_spec(k) is None && k == "default"@ {
                Some(Origin::Default)
            } else {
                old(origins).get_spec(k)
            }),
{
    if !acc.contains_key("default") {
        origins.insert(String::from_str("default"), Origin::Default);
        acc.insert(String::from_str("default"), String::from_str(template));
    }
}

/// The message for a source name that names no service.
fn unknown_source(name: &str) -> (r: String)
    ensures
        r@ == "unknown source "@ + crate::text::debug_text(name@) + ", expected one of "@
            + "\"crossref\", \"openalex\", \"arxiv\""@,
{
    let quoted = crate::text::debug_quote(name);
    let mut r = crate::text::concat2("unknown source ", quoted.as_str());
    r.append(", expected one of ");
    r.append(crate::config::supported());
    r
}

/// The message for a value that is not one of the accepted words.
fn expected(accepted: &str, got: &str) -> (r: String)
    ensures
        r@ == accepted@ + crate::text::debug_text(got@),
{
    let quoted = crate::text::debug_quote(got);
    crate::text::concat2(accepted, quoted.as_str())
}

/// The effective value of an optional text setting.
fn text_setting(layers: &Vec<(Origin, Layer)>, key: SettingKey) -> (r: Option<String>)
    requires
        key == SettingKey::BibPath || key == SettingKey::CollectionRoot || key
            == SettingKey::Mailto,
    ensures
        crate::config::text_value(r) == resolved_slot(layers@, key),
{
    proof {
        lemma_winner_bounds(layers@, key);
    }
    text_winner(layers, key)
}

/// The effective value of a boolean setting.
fn flag_setting(layers: &Vec<(Origin, Layer)>, key: SettingKey) -> (r: bool)
    requires
        key == SettingKey::BibSidecars || key == SettingKey::Ledger || key
            == SettingKey::NetworkCache || key == SettingKey::RunLog,
    ensures
        Some(SettingValue::Flag(r)) == resolved_slot(layers@, key),
{
    proof {
        lemma_winner_bounds(layers@, key);
    }
    match flag_winner(layers, key) {
        Some(b) => b,
        None => match key {
            SettingKey::BibSidecars => false,
            _ => true,
        },
    }
}

/// The effective value of the page limit or the concurrency.
fn size_setting(layers: &Vec<(Origin, Layer)>, key: SettingKey) -> (r: usize)
    requires
        key == SettingKey::ExtractionPageLimit || key == SettingKey::NetworkConcurrency,
    ensures
        Some(SettingValue::Count(r as nat)) == resolved_slot(layers@, key),
{
    proof {
        lemma_winner_bounds(layers@, key);
    }
    match size_winner(layers, key) {
        Some(n) => n,
        None => match key {
            SettingKey::ExtractionPageLimit => DEFAULT_PAGE_LIMIT,
            _ => DEFAULT_CONCURRENCY,
        },
    }
}

/// The effective interval between two requests to one service.
fn millis_setting(layers: &Vec<(Origin, Layer)>) -> (r: u64)
    ensures
        Some(SettingValue::Count(r as nat)) == resolved_slot(
            layers@,
            SettingKey::NetworkMinIntervalMs,
        ),
{
    proof {
        lemma_winner_bounds(layers@, SettingKey::NetworkMinIntervalMs);
    }
    match millis_winner(layers) {
        Some(n) => n,
        None => DEFAULT_MIN_INTERVAL_MS,
    }
}

/// The effective sources and policies under `layers`, or the error the
/// first of them that names nothing is refused with.
fn checked(layers: &Vec<(Origin, Layer)>, origins: &Vec<Origin>) -> (r: Result<
    (Vec<SourceName>, CollisionPolicy, DuplicatePolicy),
    ConfigError,
>)
    requires
        origins@.len() == 13,
        forall|key: SettingKey| #[trigger] origins@[key_index(key)] == winning_origin(layers@, key),
    ensures
        match r {
            Ok((sources, collision, duplicates)) => {
                &&& sources_error(layers@) is None
                &&& collision_error(layers@) is None
                &&& duplicates_error(layers@) is None
                &&& source_names(sources@) == resolved_sources(layers@)
                &&& Some(SettingValue::Text(collision_text(collision))) == resolved_slot(
                    layers@,
                    SettingKey::RenameCollision,
                )
                &&& Some(SettingValue::Text(duplicates_text(duplicates))) == resolved_slot(
                    layers@,
                    SettingKey::BibDuplicates,
                )
            },
            Err(err) => resolve_error(err, layers@),
        },
{
    proof {
        lemma_winner_bounds(layers@, SettingKey::Sources);
        lemma_winner_bounds(layers@, SettingKey::RenameCollision);
        lemma_winner_bounds(layers@, SettingKey::BibDuplicates);
    }
    let sources = match list_winner(layers) {
        Some(names) => match parse_sources(&names) {
            Ok(sources) => sources,
            Err(name) => {
                assert(origins@[key_index(SettingKey::Sources)] == winning_origin(
                    layers@,
                    SettingKey::Sources,
                ));
                return Err(
                    ConfigError::Invalid {
                        key: String::from_str("sources"),
                        origin: origins[12].duplicate(),
                        message: unknown_source(name.as_str()),
                    },
                );
            },
        },
        None => {
            let all = crate::config::all_sources();
            all
        },
    };
    let collision = match text_winner(layers, SettingKey::RenameCollision) {
        Some(t) => match crate::config::parse_collision(t.as_str()) {
            Some(policy) => policy,
            None => {
                assert(origins@[key_index(SettingKey::RenameCollision)] == winning_origin(
                    layers@,
                    SettingKey::RenameCollision,
                ));
                return Err(
                    ConfigError::Invalid {
                        key: String::from_str("rename.collision"),
                        origin: origins[10].duplicate(),
                        message: expected("expected suffix or skip, got ", t.as_str()),
                    },
                );
            },
        },
        None => CollisionPolicy::Suffix,
    };
    let duplicates = match text_winner(layers, SettingKey::BibDuplicates) {
        Some(t) => match crate::config::parse_duplicates(t.as_str()) {
            Some(policy) => policy,
            None => {
                assert(origins@[key_index(SettingKey::BibDuplicates)] == winning_origin(
                    layers@,
                    SettingKey::BibDuplicates,
                ));
                return Err(
                    ConfigError::Invalid {
                        key: String::from_str("bib.duplicates"),
                        origin: origins[0].duplicate(),
                        message: expected("expected skip or update, got ", t.as_str()),
                    },
                );
            },
        },
        None => DuplicatePolicy::Skip,
    };
    Ok((sources, collision, duplicates))
}

/// Merge `layers`, given lowest precedence first, into the effective
/// configuration.
///
/// A later layer's value wins over an earlier one's and the origin
/// recorded for a setting is the last layer that set it; settings no
/// layer sets keep their default and the defaults as origin. Templates,
/// citation-key templates and lookup tables merge per key, so a layer
/// defining one entry type keeps every other. Fails when the winning
/// sources name a service borax does not speak to, or the winning
/// collision or duplicate policy is not one of its words, checked in
/// that order.
pub fn resolve(layers: Vec<(Origin, Layer)>) -> (r: Result<Effective, ConfigError>)
    requires
        forall|i: int| 0 <= i < layers@.len() ==> layer_wf(#[trigger] layers@[i].1),
    ensures
        match r {
            Ok(e) => {
                &&& sources_error(layers@) is None
                &&& collision_error(layers@) is None
                &&& duplicates_error(layers@) is None
                &&& resolves_to(e, layers@)
            },
            Err(err) => resolve_error(err, layers@),
        },
{
    let ghost all = layers@;
    let origins = setting_origins(&layers);
    let (sources, collision, duplicates) = match checked(&layers, &origins) {
        Ok(found) => found,
        Err(err) => return Err(err),
    };
    let mailto = text_setting(&layers, SettingKey::Mailto);
    let collection_root = text_setting(&layers, SettingKey::CollectionRoot);
    let bib_path = text_setting(&layers, SettingKey::BibPath);
    let sidecars = flag_setting(&layers, SettingKey::BibSidecars);
    let ledger = flag_setting(&layers, SettingKey::Ledger);
    let cache = flag_setting(&layers, SettingKey::NetworkCache);
    let run_log = flag_setting(&layers, SettingKey::RunLog);
    let page_limit = size_setting(&layers, SettingKey::ExtractionPageLimit);
    let concurrency = size_setting(&layers, SettingKey::NetworkConcurrency);
    let min_interval_ms = millis_setting(&layers);
    let Merged {
        mut templates,
        mut template_origins,
        mut citation_keys,
        mut citation_origins,
        tables,
        table_origins,
    } = merge_tables(layers);
    fill_default(&mut templates, &mut template_origins, DEFAULT_FILENAME_TEMPLATE);
    fill_default(&mut citation_keys, &mut citation_origins, DEFAULT_CITATION_KEY_TEMPLATE);
    let config = Config {
        templates,
        citation_keys,
        tables,
        sources,
        mailto,
        collection_root,
        concurrency,
        min_interval_ms,
        page_limit,
        collision,
        bib_path,
        duplicates,
        sidecars,
        cache,
        ledger,
        run_log,
    };
    let e = Effective {
        config,
        setting_origins: origins,
        template_origins,
        citation_origins,
        table_origins,
    };
    proof {
        assert forall|key: SettingKey|
            key != SettingKey::Sources implies #[trigger] config_slot(e.settings(), key)
            == resolved_slot(all, key) by {}
        assert forall|citation: bool, k: Seq<char>|
            #[trigger] e.template_origin(citation, k) == resolved_template_origin(
                all,
                citation,
                k,
            ) by {}
    }
    Ok(e)
}

/// The position of `key` in [`crate::config::setting_keys`].
fn index_of(key: SettingKey) -> (r: usize)
    ensures
        r as int == key_index(key),
{
    match key {
        SettingKey::BibDuplicates => 0,
        SettingKey::BibPath => 1,
        SettingKey::BibSidecars => 2,
        SettingKey::CollectionRoot => 3,
        SettingKey::ExtractionPageLimit => 4,
        SettingKey::Ledger => 5,
        SettingKey::Mailto => 6,
        SettingKey::NetworkCache => 7,
        SettingKey::NetworkConcurrency => 8,
        SettingKey::NetworkMinIntervalMs => 9,
        SettingKey::RenameCollision => 10,
        SettingKey::RunLog => 11,
        SettingKey::Sources => 12,
    }
}

/// The keys of the single-valued settings start with none of the
/// prefixes of the open-ended tables, and each names its own setting.
proof fn lemma_key_texts(k: SettingKey)
    ensures
        crate::config::setting_named(crate::config::key_text(k)) == Some(k),
        !crate::text::starts_with(crate::config::key_text(k), "templates."@),
        !crate::text::starts_with(crate::config::key_text(k), "citation-keys."@),
        !crate::text::starts_with(crate::config::key_text(k), "tables."@),
{
    reveal_strlit("templates.");
    reveal_strlit("citation-keys.");
    reveal_strlit("tables.");
    reveal_strlit("bib.duplicates");
    reveal_strlit("bib.path");
    reveal_strlit("bib.sidecars");
    reveal_strlit("collection-root");
    reveal_strlit("extraction.page-limit");
    reveal_strlit("ledger");
    reveal_strlit("mailto");
    reveal_strlit("network.cache");
    reveal_strlit("network.concurrency");
    reveal_strlit("network.min-interval-ms");
    reveal_strlit("rename.collision");
    reveal_strlit("run-log");
    reveal_strlit("sources");
    assert("ledger"@[0] != "mailto"@[0]);
    assert("run-log"@[0] != "sources"@[0]);
    assert("bib.duplicates"@.len() == 14 && "bib.path"@.len() == 8 && "bib.sidecars"@.len() == 12
        && "collection-root"@.len() == 15 && "extraction.page-limit"@.len() == 21
        && "ledger"@.len() == 6 && "mailto"@.len() == 6 && "network.cache"@.len() == 13
        && "network.concurrency"@.len() == 19 && "network.min-interval-ms"@.len() == 23
        && "rename.collision"@.len() == 16 && "run-log"@.len() == 7 && "sources"@.len() == 7);
    match k {
        SettingKey::Mailto => {
            assert("mailto"@ != "ledger"@);
        },
        SettingKey::Sources => {
            assert("sources"@ != "run-log"@);
        },
        _ => {},
    }
    let t = crate::config::key_text(k);
    let p1 = "templates."@;
    let p2 = "citation-keys."@;
    let p3 = "tables."@;
    if crate::text::starts_with(t, p1) {
        assert(t.take(10)[0] == p1[0] && t.take(10)[1] == p1[1] && t.take(10)[2] == p1[2]);
        assert(t[0] == 't' && t[1] == 'e' && t[2] == 'm');
    }
    if crate::text::starts_with(t, p2) {
        assert(t.take(14)[0] == p2[0] && t.take(14)[1] == p2[1]);
        assert(t[0] == 'c' && t[1] == 'i');
    }
    if crate::text::starts_with(t, p3) {
        assert(t.take(7)[0] == p3[0] && t.take(7)[1] == p3[1]);
        assert(t[0] == 't' && t[1] == 'a');
    }
}

/// A name a single-valued setting answers to is that setting's key.
proof fn lemma_setting_named(name: Seq<char>)
    ensures
        crate::config::setting_named(name) matches Some(k) ==> name == crate::config::key_text(k),
{
}

/// No name that starts with one of the tables' prefixes names a
/// single-valued setting.
proof fn lemma_prefixed_names_no_setting(name: Seq<char>, prefix: Seq<char>)
    requires
        prefix == "templates."@ || prefix == "citation-keys."@ || prefix == "tables."@,
        crate::text::starts_with(name, prefix),
    ensures
        crate::config::setting_named(name) is None,
{
    lemma_setting_named(name);
    if let Some(k) = crate::config::setting_named(name) {
        lemma_key_texts(k);
    }
}

/// The three prefixes exclude one another.
proof fn lemma_prefixes_differ(name: Seq<char>)
    ensures
        crate::text::starts_with(name, "templates."@) ==> !crate::text::starts_with(
            name,
            "citation-keys."@,
        ) && !crate::text::starts_with(name, "tables."@),
        crate::text::starts_with(name, "citation-keys."@) ==> !crate::text::starts_with(
            name,
            "tables."@,
        ),
{
    reveal_strlit("templates.");
    reveal_strlit("citation-keys.");
    reveal_strlit("tables.");
    let p1 = "templates."@;
    let p2 = "citation-keys."@;
    let p3 = "tables."@;
    if crate::text::starts_with(name, p1) {
        assert(name.take(10)[0] == p1[0] && name.take(10)[2] == p1[2]);
        assert(name[0] == 't' && name[2] == 'm');
        if crate::text::starts_with(name, p3) {
            assert(name.take(7)[2] == p3[2]);
        }
    }
    if crate::text::starts_with(name, p2) {
        assert(name.take(14)[0] == p2[0]);
        if crate::text::starts_with(name, p3) {
            assert(name.take(7)[0] == p3[0]);
        }
    }
}

/// Whether every row of `rows` with key `k` names `o` as its origin.
pub open spec fn rows_agree(rows: Seq<Row>, k: Seq<char>, o: Origin) -> bool {
    forall|i: int| 0 <= i < rows.len() && #[trigger] rows[i].0 == k ==> rows[i].2 == o
}

/// Whether some row of `rows` has key `k`.
pub open spec fn has_row(rows: Seq<Row>, k: Seq<char>) -> bool {
    exists|i: int| 0 <= i < rows.len() && #[trigger] rows[i].0 == k
}

/// The last row with key `k` is there exactly when some row has that
/// key, and names the origin every such row names.
proof fn lemma_last_row(rows: Seq<Row>, k: Seq<char>, o: Origin)
    ensures
        last_row(rows, k) is Some <==> has_row(rows, k),
        rows_agree(rows, k, o) ==> (last_row(rows, k) matches Some((_, x)) ==> x == o),
    decreases rows.len(),
{
    if rows.len() > 0 {
        let front = rows.drop_last();
        lemma_last_row(front, k, o);
        if has_row(front, k) {
            let i = choose|i: int| 0 <= i < front.len() && #[trigger] front[i].0 == k;
            assert(rows[i].0 == k);
        }
        if has_row(rows, k) && rows.last().0 != k {
            let i = choose|i: int| 0 <= i < rows.len() && #[trigger] rows[i].0 == k;
            assert(front[i].0 == k);
        }
        if rows_agree(rows, k, o) {
            assert forall|i: int| 0 <= i < front.len() && #[trigger] front[i].0 == k implies front[i].2
                == o by {
                assert(rows[i] == front[i]);
            }
            if rows.last().0 == k {
                assert(rows[rows.len() - 1].0 == k);
            }
        }
    }
}

/// What two lists of rows laid end to end say about `k`.
proof fn lemma_rows_concat(a: Seq<Row>, b: Seq<Row>, k: Seq<char>, o: Origin)
    ensures
        has_row(a + b, k) <==> has_row(a, k) || has_row(b, k),
        rows_agree(a, k, o) && rows_agree(b, k, o) ==> rows_agree(a + b, k, o),
{
    if has_row(a + b, k) {
        let i = choose|i: int| 0 <= i < (a + b).len() && #[trigger] (a + b)[i].0 == k;
        if i < a.len() {
            assert(a[i].0 == k);
        } else {
            assert(b[i - a.len()].0 == k);
        }
    }
    if has_row(a, k) {
        let i = choose|i: int| 0 <= i < a.len() && #[trigger] a[i].0 == k;
        assert((a + b)[i].0 == k);
    }
    if has_row(b, k) {
        let i = choose|i: int| 0 <= i < b.len() && #[trigger] b[i].0 == k;
        assert((a + b)[i + a.len()].0 == k);
    }
    if rows_agree(a, k, o) && rows_agree(b, k, o) {
        assert forall|i: int| 0 <= i < (a + b).len() && #[trigger] (a + b)[i].0 == k implies (a
            + b)[i].2 == o by {
            if i < a.len() {
                assert(a[i] == (a + b)[i]);
            } else {
                assert(b[i - a.len()] == (a + b)[i]);
            }
        }
    }
}

/// A key is found exactly when some entry carries it.
proof fn lemma_find_iff<V>(entries: Seq<(String, V)>, key: Seq<char>)
    ensures
        crate::dict::find(entries, key) is Some <==> exists|i: int|
            0 <= i < entries.len() && #[trigger] entries[i].0@ == key,
    decreases entries.len(),
{
    if entries.len() > 0 {
        lemma_find_iff(entries.skip(1), key);
        if exists|i: int| 0 <= i < entries.len() && #[trigger] entries[i].0@ == key {
            let i = choose|i: int| 0 <= i < entries.len() && #[trigger] entries[i].0@ == key;
            if i > 0 && entries[0].0@ != key {
                assert(entries.skip(1)[i - 1].0@ == key);
            }
        }
        if exists|i: int| 0 <= i < entries.skip(1).len() && #[trigger] entries.skip(1)[i].0@ == key {
            let i = choose|i: int| 0 <= i < entries.skip(1).len() && #[trigger] entries.skip(1)[i].0@
                == key;
            assert(entries[i + 1].0@ == key);
        }
    }
}

/// `prefix` followed by what `k` has after it is `k`, when `k` starts
/// with `prefix`.
proof fn lemma_after_prefix(k: Seq<char>, prefix: Seq<char>)
    requires
        crate::text::starts_with(k, prefix),
    ensures
        k =~= prefix + k.skip(prefix.len() as int),
{
    assert(k =~= k.take(prefix.len() as int) + k.skip(prefix.len() as int));
}

/// The rows of the templates of one kind with key `k`: there when `k`
/// is the kind's prefix and an entry type that has a template, and each
/// naming the origin of that entry type's template.
proof fn lemma_template_rows(e: Effective, c: bool, k: Seq<char>)
    ensures
        !crate::text::starts_with(k, template_prefix(c)) ==> !has_row(template_rows(e, c), k),
        crate::text::starts_with(k, template_prefix(c)) ==> {
            let name = k.skip(template_prefix(c).len() as int);
            &&& has_row(template_rows(e, c), k) <==> templates_of(e.settings(), c).get_spec(
                name,
            ) is Some
            &&& rows_agree(template_rows(e, c), k, or_default(e.template_origin(c, name)))
        },
{
    let prefix = template_prefix(c);
    let entries = templates_of(e.settings(), c).entries@;
    let rows = template_rows(e, c);
    assert(rows.len() == entries.len());
    assert forall|i: int| 0 <= i < rows.len() implies #[trigger] rows[i].0 == prefix + entries[i].0@
        && rows[i].2 == or_default(e.template_origin(c, entries[i].0@)) by {}
    assert forall|i: int| 0 <= i < rows.len() implies crate::text::starts_with(
        #[trigger] rows[i].0,
        prefix,
    ) && rows[i].0.skip(prefix.len() as int) =~= entries[i].0@ by {
        assert((prefix + entries[i].0@).take(prefix.len() as int) =~= prefix);
    }
    lemma_find_iff(entries, k.skip(prefix.len() as int));
    if crate::text::starts_with(k, prefix) {
        let name = k.skip(prefix.len() as int);
        lemma_after_prefix(k, prefix);
        if has_row(rows, k) {
            let i = choose|i: int| 0 <= i < rows.len() && #[trigger] rows[i].0 == k;
            assert(entries[i].0@ == name);
        }
        if exists|i: int| 0 <= i < entries.len() && #[trigger] entries[i].0@ == name {
            let i = choose|i: int| 0 <= i < entries.len() && #[trigger] entries[i].0@ == name;
            assert(rows[i].0 == k);
        }
        assert forall|i: int| 0 <= i < rows.len() && #[trigger] rows[i].0 == k implies rows[i].2
            == or_default(e.template_origin(c, name)) by {
            assert(entries[i].0@ == rows[i].0.skip(prefix.len() as int));
        }
    }
}

/// A name, a dot and a field name without dots split back at the dot.
proof fn lemma_split_field(n: Seq<char>, f: Seq<char>)
    requires
        forall|j: int| 0 <= j < f.len() ==> f[j] != '.',
    ensures
        crate::paths::last_index(n + seq!['.'] + f, '.') == n.len(),
        (n + seq!['.'] + f).take(n.len() as int) =~= n,
        (n + seq!['.'] + f).skip(n.len() as int + 1) =~= f,
{
    let t = n + seq!['.'] + f;
    crate::paths::lemma_last_index(t, '.');
    let li = crate::paths::last_index(t, '.');
    assert(t[n.len() as int] == '.');
    if li > n.len() {
        assert(t[li] == f[li - n.len() - 1]);
    }
}

/// The fields a table declaration is listed by carry no dot.
proof fn lemma_fields_undotted(f: Seq<char>)
    requires
        is_table_field(f),
    ensures
        forall|j: int| 0 <= j < f.len() ==> f[j] != '.',
{
    reveal_strlit("path");
    reveal_strlit("key");
    reveal_strlit("value");
    reveal_strlit("values");
}

/// The rows of the table declared as `n` with key `k`: there when `k`
/// is `tables.`, `n`, a dot and one of the declaration's fields.
proof fn lemma_declaration_rows(e: Effective, n: Seq<char>, d: TableDeclaration, k: Seq<char>)
    ensures
        !crate::text::starts_with(k, "tables."@) ==> !has_row(declaration_rows(e, n, d), k),
        crate::text::starts_with(k, "tables."@) ==> {
            let rest = k.skip("tables."@.len() as int);
            let dot = crate::paths::last_index(rest, '.');
            &&& has_row(declaration_rows(e, n, d), k) <==> (dot >= 0 && is_table_field(
                rest.skip(dot + 1),
            ) && rest.take(dot) == n)
            &&& rows_agree(declaration_rows(e, n, d), k, or_default(e.table_origin(rest.take(dot))))
        },
{
    reveal_strlit("path");
    reveal_strlit("key");
    reveal_strlit("value");
    reveal_strlit("values");
    let p = "tables."@;
    let rows = declaration_rows(e, n, d);
    let fields = crate::listing::field_texts(d);
    assert(rows.len() == 4);
    assert forall|i: int| 0 <= i < 4 implies #[trigger] rows[i].0 == p + n + "."@ + fields[i].0
        && is_table_field(fields[i].0) by {}
    reveal_strlit(".");
    assert("."@ =~= seq!['.']);
    assert forall|i: int| 0 <= i < 4 implies crate::text::starts_with(#[trigger] rows[i].0, p)
        && rows[i].0.skip(p.len() as int) =~= n + seq!['.'] + fields[i].0 by {
        assert((p + n + "."@ + fields[i].0).take(p.len() as int) =~= p);
        assert((p + n + "."@ + fields[i].0).skip(p.len() as int) =~= n + seq!['.'] + fields[i].0);
    }
    if crate::text::starts_with(k, p) {
        let rest = k.skip(p.len() as int);
        let dot = crate::paths::last_index(rest, '.');
        lemma_after_prefix(k, p);
        crate::paths::lemma_last_index(rest, '.');
        assert forall|i: int| 0 <= i < 4 && #[trigger] rows[i].0 == k implies dot >= 0 && is_table_field(
            rest.skip(dot + 1),
        ) && rest.take(dot) == n && rows[i].2 == or_default(e.table_origin(rest.take(dot))) by {
            lemma_fields_undotted(fields[i].0);
            lemma_split_field(n, fields[i].0);
            assert(rest =~= n + seq!['.'] + fields[i].0);
        }
        if dot >= 0 && is_table_field(rest.skip(dot + 1)) && rest.take(dot) == n {
            let f = rest.skip(dot + 1);
            assert(rest =~= n + seq!['.'] + f);
            let i: int = if f == "path"@ {
                0
            } else if f == "key"@ {
                1
            } else if f == "value"@ {
                2
            } else {
                3
            };
            assert(fields[i].0 == f);
            assert(rows[i].0 =~= k);
        }
    }
}

/// The rows of every table in `entries` with key `k`: there when `k` is
/// `tables.`, a declared table's name, a dot and one of its fields, and
/// each naming that table's origin.
proof fn lemma_table_rows(e: Effective, entries: Seq<(String, TableDeclaration)>, k: Seq<char>)
    ensures
        !crate::text::starts_with(k, "tables."@) ==> !has_row(table_rows(e, entries), k),
        crate::text::starts_with(k, "tables."@) ==> {
            let rest = k.skip("tables."@.len() as int);
            let dot = crate::paths::last_index(rest, '.');
            &&& has_row(table_rows(e, entries), k) <==> (dot >= 0 && is_table_field(
                rest.skip(dot + 1),
            ) && exists|i: int| 0 <= i < entries.len() && #[trigger] entries[i].0@ == rest.take(dot))
            &&& rows_agree(table_rows(e, entries), k, or_default(e.table_origin(rest.take(dot))))
        },
    decreases entries.len(),
{
    if entries.len() > 0 {
        let front = entries.drop_last();
        let last = entries.last();
        lemma_table_rows(e, front, k);
        lemma_declaration_rows(e, last.0@, last.1, k);
        let rest = k.skip("tables."@.len() as int);
        let dot = crate::paths::last_index(rest, '.');
        let o = or_default(e.table_origin(rest.take(dot)));
        lemma_rows_concat(table_rows(e, front), declaration_rows(e, last.0@, last.1), k, o);
        if exists|i: int| 0 <= i < entries.len() && #[trigger] entries[i].0@ == rest.take(dot) {
            let i = choose|i: int| 0 <= i < entries.len() && #[trigger] entries[i].0@ == rest.take(dot);
            if i < front.len() {
                assert(front[i].0@ == rest.take(dot));
            }
        }
        if exists|i: int| 0 <= i < front.len() && #[trigger] front[i].0@ == rest.take(dot) {
            let i = choose|i: int| 0 <= i < front.len() && #[trigger] front[i].0@ == rest.take(dot);
            assert(entries[i].0@ == rest.take(dot));
        }
        assert(entries[entries.len() - 1] == last);
    }
}

/// Every key `borax config` lists names the origin [`Effective::origin`]
/// answers for it, and a key it does not list has none: for a
/// configuration merged from `layers`, whatever key `k`, the last row
/// with that key carries the origin `origin_spec` gives, and there is
/// no such row exactly when `origin_spec` gives none.
#[verifier::spinoff_prover]
pub proof fn listed_origins_are_the_origins(e: Effective, layers: Seq<(Origin, Layer)>, k: Seq<char>)
    requires
        resolves_to(e, layers),
    ensures
        match last_row(all_rows(e), k) {
            Some((_, o)) => origin_spec(e, k) == Some(o),
            None => origin_spec(e, k) is None,
        },
{
    let single = single_rows(e);
    let tf = template_rows(e, false);
    let tc = template_rows(e, true);
    let tt = table_rows(e, e.settings().tables.entries@);
    let all = all_rows(e);
    assert(all == single + tf + tc + tt);
    lemma_template_rows(e, false, k);
    lemma_template_rows(e, true, k);
    lemma_table_rows(e, e.settings().tables.entries@, k);
    lemma_setting_named(k);
    lemma_prefixes_differ(k);
    let keys = crate::config::setting_keys();
    assert(single.len() == 13);
    assert forall|i: int| 0 <= i < 13 implies (#[trigger] single[i]).0 == crate::config::key_text(
        keys[i],
    ) && single[i].2 == e.setting_origin(keys[i]) by {}
    let o: Origin = match crate::config::setting_named(k) {
        Some(sk) => e.setting_origin(sk),
        None => if crate::text::starts_with(k, "templates."@) {
            or_default(e.template_origin(false, k.skip("templates."@.len() as int)))
        } else if crate::text::starts_with(k, "citation-keys."@) {
            or_default(e.template_origin(true, k.skip("citation-keys."@.len() as int)))
        } else {
            let rest = k.skip("tables."@.len() as int);
            or_default(e.table_origin(rest.take(crate::paths::last_index(rest, '.'))))
        },
    };
    // The single-valued rows with key `k` are those of the setting `k`
    // names, if it names one.
    assert forall|i: int| 0 <= i < 13 && #[trigger] single[i].0 == k implies crate::config::setting_named(
        k,
    ) == Some(keys[i]) by {
        lemma_key_texts(keys[i]);
    }
    assert(rows_agree(single, k, o));
    assert(has_row(single, k) <==> crate::config::setting_named(k) is Some) by {
        if let Some(sk) = crate::config::setting_named(k) {
            lemma_key_index(sk);
            assert(single[key_index(sk)].0 == k);
        }
    }
    if let Some(sk) = crate::config::setting_named(k) {
        lemma_key_texts(sk);
    } else {
        if crate::text::starts_with(k, "templates."@) {
            assert(text_of(e.settings().templates.get_spec(k.skip(10))) == resolved_template(
                layers,
                false,
                k.skip(10),
            ));
        }
    }
    lemma_rows_concat(single, tf, k, o);
    lemma_rows_concat(single + tf, tc, k, o);
    lemma_rows_concat(single + tf + tc, tt, k, o);
    lemma_last_row(all, k, o);
    let rest = k.skip("tables."@.len() as int);
    let dot = crate::paths::last_index(rest, '.');
    lemma_find_iff(e.settings().tables.entries@, rest.take(dot));
    assert(e.settings().tables.get_spec(rest.take(dot)) == won(newest_table(layers, rest.take(dot))));
    assert(e.table_origin(rest.take(dot)) == won_from(newest_table(layers, rest.take(dot))));
    assert(e.template_origin(false, k.skip(10)) == resolved_template_origin(layers, false, k.skip(10)));
    assert(e.template_origin(true, k.skip(14)) == resolved_template_origin(layers, true, k.skip(14)));
    assert(text_of(e.settings().citation_keys.get_spec(k.skip(14))) == resolved_template(
        layers,
        true,
        k.skip(14),
    ));
    assert(text_of(e.settings().templates.get_spec(k.skip(10))) == resolved_template(
        layers,
        false,
        k.skip(10),
    ));
    if has_row(all, k) && crate::config::setting_named(k) is None {
        reveal_strlit("templates.");
        reveal_strlit("citation-keys.");
        reveal_strlit("tables.");
        if crate::text::starts_with(k, "templates."@) {
            assert(has_row(tf, k));
            assert(e.settings().templates.get_spec(k.skip(10)) is Some);
            assert(resolved_template_origin(layers, false, k.skip(10)) is Some);
        } else if crate::text::starts_with(k, "citation-keys."@) {
            assert(has_row(tc, k));
            assert(e.settings().citation_keys.get_spec(k.skip(14)) is Some);
            assert(resolved_template_origin(layers, true, k.skip(14)) is Some);
        } else {
            assert(has_row(tt, k));
            assert(e.settings().tables.get_spec(rest.take(dot)) is Some);
            assert(e.table_origin(rest.take(dot)) is Some);
        }
    }
    if has_row(all, k) {
        assert(origin_spec(e, k) == Some(o));
        assert(last_row(all, k) matches Some((_, x)) && x == o);
    } else {
        assert(last_row(all, k) is None);
        reveal_strlit("templates.");
        reveal_strlit("citation-keys.");
        reveal_strlit("tables.");
        assert(!has_row(single, k));
        assert(crate::config::setting_named(k) is None);
        if crate::text::starts_with(k, "templates."@) {
            assert(!has_row(tf, k));
            assert(e.settings().templates.get_spec(k.skip(10)) is None);
            assert(resolved_template_origin(layers, false, k.skip(10)) is None);
        } else if crate::text::starts_with(k, "citation-keys."@) {
            assert(!has_row(tc, k));
            assert(e.settings().citation_keys.get_spec(k.skip(14)) is None);
            assert(resolved_template_origin(layers, true, k.skip(14)) is None);
        } else if crate::text::starts_with(k, "tables."@) {
            assert(!has_row(tt, k));
            if dot >= 0 && is_table_field(rest.skip(dot + 1)) {
                assert(e.settings().tables.get_spec(rest.take(dot)) is None);
                assert(e.table_origin(rest.take(dot)) is None);
            }
        }
        assert(origin_spec(e, k) is None);
    }
}

/// Whether `field` is one of the keys a table declaration is addressed
/// by.
pub open spec fn is_table_field(field: Seq<char>) -> bool {
    field == "path"@ || field == "key"@ || field == "value"@ || field == "values"@
}

/// The origin of the table key `rest`, the part of a key after
/// `tables.`: a table name, a dot, and one of the declaration's fields.
pub open spec fn table_key_origin(e: Effective, rest: Seq<char>) -> Option<Origin> {
    let dot = crate::paths::last_index(rest, '.');
    if dot >= 0 && is_table_field(rest.skip(dot + 1)) {
        e.table_origin(rest.take(dot))
    } else {
        None
    }
}

/// Which layer supplied the setting addressed by the dotted name `key`:
/// a single-valued setting, `templates.<type>`, `citation-keys.<type>`,
/// or `tables.<name>.<field>`; `None` when no such key exists.
pub open spec fn origin_spec(e: Effective, key: Seq<char>) -> Option<Origin> {
    match crate::config::setting_named(key) {
        Some(k) => Some(e.setting_origin(k)),
        None => if crate::text::starts_with(key, "templates."@) {
            e.template_origin(false, key.skip("templates."@.len() as int))
        } else if crate::text::starts_with(key, "citation-keys."@) {
            e.template_origin(true, key.skip("citation-keys."@.len() as int))
        } else if crate::text::starts_with(key, "tables."@) {
            table_key_origin(e, key.skip("tables."@.len() as int))
        } else {
            None
        },
    }
}

/// Whether `field` is one of the keys a table declaration is addressed
/// by.
fn table_field(field: &str) -> (r: bool)
    ensures
        r == is_table_field(field@),
{
    crate::text::same(field, "path") || crate::text::same(field, "key") || crate::text::same(
        field,
        "value",
    ) || crate::text::same(field, "values")
}

impl Effective {
    /// Which layer supplied `key`, or `None` when no such key exists.
    ///
    /// Every key of a resolved configuration has an origin, so `None`
    /// means the key was misspelled rather than unset.
    pub fn origin(&self, key: &str) -> (r: Option<&Origin>)
        ensures
            match r {
                Some(o) => origin_spec(*self, key@) == Some(*o),
                None => origin_spec(*self, key@) is None,
            },
    {
        proof {
            use_type_invariant(self);
        }
        if let Some(k) = SettingKey::named(key) {
            return Some(&self.setting_origins[index_of(k)]);
        }
        if crate::text::has_prefix(key, "templates.") {
            let rest = crate::text::tail(key, "templates.".unicode_len());
            return self.template_origins.get(rest.as_str());
        }
        if crate::text::has_prefix(key, "citation-keys.") {
            let rest = crate::text::tail(key, "citation-keys.".unicode_len());
            return self.citation_origins.get(rest.as_str());
        }
        if crate::text::has_prefix(key, "tables.") {
            let rest = crate::text::tail(key, "tables.".unicode_len());
            return match crate::paths::find_last(rest.as_str(), '.') {
                Some(dot) => {
                    let n = rest.as_str().unicode_len();
                    assert(dot < n);
                    let field = crate::text::tail(rest.as_str(), dot + 1);
                    if table_field(field.as_str()) {
                        let name = crate::text::head(rest.as_str(), dot);
                        self.table_origins.get(name.as_str())
                    } else {
                        None
                    }
                },
                None => None,
            };
        }
        None
    }
}

/// One line of `borax config`: a key, its value as written, and where
/// the value came from.
pub type Row = (Seq<char>, Seq<char>, Origin);

/// An origin, or the defaults when there is none.
pub open spec fn or_default(o: Option<Origin>) -> Origin {
    match o {
        Some(x) => x,
        None => Origin::Default,
    }
}

/// A row's key and value as text, and its origin.
pub open spec fn row_view(o: Option<(String, Origin)>) -> Option<(Seq<char>, Origin)> {
    match o {
        Some((v, origin)) => Some((v@, origin)),
        None => None,
    }
}

/// The value and origin of the last of `rows` with key `k`.
pub open spec fn last_row(rows: Seq<Row>, k: Seq<char>) -> Option<(Seq<char>, Origin)>
    decreases rows.len(),
{
    if rows.len() == 0 {
        None
    } else if rows.last().0 == k {
        Some((rows.last().1, rows.last().2))
    } else {
        last_row(rows.drop_last(), k)
    }
}

/// The value and origin of the first of `rows` with key `k`.
pub open spec fn row_for(rows: Seq<(String, String, Origin)>, k: Seq<char>) -> Option<
    (Seq<char>, Origin),
>
    decreases rows.len(),
{
    if rows.len() == 0 {
        None
    } else if rows[0].0@ == k {
        Some((rows[0].1@, rows[0].2))
    } else {
        row_for(rows.skip(1), k)
    }
}

/// One row for each single-valued setting, in key order.
pub open spec fn single_rows(e: Effective) -> Seq<Row> {
    crate::config::setting_keys().map_values(
        |k: SettingKey|
            (
                crate::config::key_text(k),
                crate::listing::rendered(e.settings(), k),
                e.setting_origin(k),
            ),
    )
}

/// The prefix the keys of a template table carry.
pub open spec fn template_prefix(citation: bool) -> Seq<char> {
    if citation {
        "citation-keys."@
    } else {
        "templates."@
    }
}

/// The filename templates of `config` when `citation` is false, its
/// citation-key templates when it is true.
pub open spec fn templates_of(config: Config, citation: bool) -> Dict<String> {
    if citation {
        config.citation_keys
    } else {
        config.templates
    }
}

/// One row for each template of the given kind, in entry-type order.
pub open spec fn template_rows(e: Effective, citation: bool) -> Seq<Row> {
    templates_of(e.settings(), citation).entries@.map_values(
        |en: (String, String)|
            (
                template_prefix(citation) + en.0@,
                quoted(en.1@),
                or_default(e.template_origin(citation, en.0@)),
            ),
    )
}

/// The four rows of the table declared as `name`.
pub open spec fn declaration_rows(e: Effective, name: Seq<char>, d: TableDeclaration) -> Seq<Row> {
    crate::listing::field_texts(d).map_values(
        |f: (Seq<char>, Seq<char>)|
            ("tables."@ + name + "."@ + f.0, f.1, or_default(e.table_origin(name))),
    )
}

/// The rows of every table in `entries`, four to a table.
pub open spec fn table_rows(e: Effective, entries: Seq<(String, TableDeclaration)>) -> Seq<Row>
    decreases entries.len(),
{
    if entries.len() == 0 {
        Seq::empty()
    } else {
        table_rows(e, entries.drop_last()) + declaration_rows(
            e,
            entries.last().0@,
            entries.last().1,
        )
    }
}

/// Every row of `borax config`, before ordering: the single-valued
/// settings, the filename templates, the citation-key templates, and
/// four rows for each lookup table.
pub open spec fn all_rows(e: Effective) -> Seq<Row> {
    single_rows(e) + template_rows(e, false) + template_rows(e, true) + table_rows(
        e,
        e.settings().tables.entries@,
    )
}

use crate::text::quoted;

/// Add the row `(key, value, origin)` to `rows`, replacing any row with
/// that key.
fn put(
    rows: &mut Dict<(String, Origin)>,
    Ghost(added): Ghost<Seq<Row>>,
    key: String,
    value: String,
    origin: Origin,
) -> (now: Ghost<Seq<Row>>)
    requires
        old(rows).wf(),
        forall|k: Seq<char>| #[trigger] row_view(old(rows).get_spec(k)) == last_row(added, k),
    ensures
        final(rows).wf(),
        now@ == added.push((key@, value@, origin)),
        forall|k: Seq<char>| #[trigger] row_view(final(rows).get_spec(k)) == last_row(now@, k),
{
    let ghost row = (key@, value@, origin);
    let ghost k0 = key@;
    rows.insert(key, (value, origin));
    proof {
        let next = added.push(row);
        assert(next.drop_last() =~= added);
        assert forall|k: Seq<char>| #[trigger] row_view(rows.get_spec(k)) == last_row(next, k) by {
            if k != k0 {
                assert(row_view(old(rows).get_spec(k)) == last_row(added, k));
            }
        }
    }
    Ghost(added.push(row))
}

impl Effective {
    /// Add a row for every single-valued setting.
    fn put_settings(&self, rows: &mut Dict<(String, Origin)>) -> (now: Ghost<Seq<Row>>)
        requires
            old(rows).wf(),
            forall|k: Seq<char>| #[trigger] row_view(old(rows).get_spec(k)) == last_row(
                Seq::empty(),
                k,
            ),
        ensures
            final(rows).wf(),
            now@ == single_rows(*self),
            forall|k: Seq<char>| #[trigger] row_view(final(rows).get_spec(k)) == last_row(now@, k),
    {
        proof {
            use_type_invariant(self);
        }
        let keys = crate::config::settings_in_order();
        let mut added: Ghost<Seq<Row>> = Ghost(Seq::empty());
        let mut i: usize = 0;
        assert(single_rows(*self).take(0) =~= Seq::<Row>::empty());
        while i < keys.len()
            invariant
                keys@ == crate::config::setting_keys(),
                self.setting_origins@.len() == 13,
                i <= keys@.len(),
                rows.wf(),
                added@ == single_rows(*self).take(i as int),
                forall|k: Seq<char>| #[trigger] row_view(rows.get_spec(k)) == last_row(added@, k),
            decreases keys@.len() - i,
        {
            let key = keys[i];
            let name = String::from_str(key.name());
            let value = crate::listing::render(&self.config, key);
            proof {
                lemma_key_index(key);
            }
            let origin = self.setting_origins[index_of(key)].duplicate();
            added = put(rows, added, name, value, origin);
            proof {
                assert(single_rows(*self).take(i + 1) =~= single_rows(*self).take(i as int).push(
                    single_rows(*self)[i as int],
                ));
            }
            i = i + 1;
        }
        assert(single_rows(*self).take(i as int) =~= single_rows(*self));
        added
    }

    /// Add a row for every template of the given kind.
    fn put_templates(
        &self,
        rows: &mut Dict<(String, Origin)>,
        Ghost(before): Ghost<Seq<Row>>,
        citation: bool,
    ) -> (now: Ghost<Seq<Row>>)
        requires
            old(rows).wf(),
            forall|k: Seq<char>| #[trigger] row_view(old(rows).get_spec(k)) == last_row(before, k),
        ensures
            final(rows).wf(),
            now@ == before + template_rows(*self, citation),
            forall|k: Seq<char>| #[trigger] row_view(final(rows).get_spec(k)) == last_row(now@, k),
    {
        proof {
            use_type_invariant(self);
        }
        let table = if citation {
            &self.config.citation_keys
        } else {
            &self.config.templates
        };
        let origins = if citation {
            &self.citation_origins
        } else {
            &self.template_origins
        };
        let prefix = if citation {
            "citation-keys."
        } else {
            "templates."
        };
        let ghost all = template_rows(*self, citation);
        let mut added: Ghost<Seq<Row>> = Ghost(before);
        let mut i: usize = 0;
        assert(before + all.take(0) =~= before);
        while i < table.entries.len()
            invariant
                *table == templates_of(self.config, citation),
                origins.wf(),
                citation ==> *origins == self.citation_origins,
                !citation ==> *origins == self.template_origins,
                prefix@ == template_prefix(citation),
                all == template_rows(*self, citation),
                i <= table.entries@.len(),
                rows.wf(),
                added@ == before + all.take(i as int),
                forall|k: Seq<char>| #[trigger] row_view(rows.get_spec(k)) == last_row(added@, k),
            decreases table.entries@.len() - i,
        {
            let key = crate::text::concat2(prefix, table.entries[i].0.as_str());
            let value = crate::text::quote(table.entries[i].1.as_str());
            let origin = match origins.get(table.entries[i].0.as_str()) {
                Some(o) => o.duplicate(),
                None => Origin::Default,
            };
            added = put(rows, added, key, value, origin);
            proof {
                assert(all[i as int] == (key@, value@, origin));
                assert(before + all.take(i + 1) =~= (before + all.take(i as int)).push(
                    all[i as int],
                ));
            }
            i = i + 1;
        }
        assert(all.take(i as int) =~= all);
        added
    }

    /// Add four rows for every lookup table.
    fn put_tables(
        &self,
        rows: &mut Dict<(String, Origin)>,
        Ghost(before): Ghost<Seq<Row>>,
    ) -> (now: Ghost<Seq<Row>>)
        requires
            old(rows).wf(),
            forall|k: Seq<char>| #[trigger] row_view(old(rows).get_spec(k)) == last_row(before, k),
        ensures
            final(rows).wf(),
            now@ == before + table_rows(*self, self.settings().tables.entries@),
            forall|k: Seq<char>| #[trigger] row_view(final(rows).get_spec(k)) == last_row(now@, k),
    {
        proof {
            use_type_invariant(self);
        }
        let entries = &self.config.tables.entries;
        let mut added: Ghost<Seq<Row>> = Ghost(before);
        let mut i: usize = 0;
        assert(before + table_rows(*self, entries@.take(0)) =~= before);
        while i < entries.len()
            invariant
                *entries == self.config.tables.entries,
                self.table_origins.wf(),
                i <= entries@.len(),
                rows.wf(),
                added@ == before + table_rows(*self, entries@.take(i as int)),
                forall|k: Seq<char>| #[trigger] row_view(rows.get_spec(k)) == last_row(added@, k),
            decreases entries@.len() - i,
        {
            let name = &entries[i].0;
            let d = &entries[i].1;
            let origin = match self.table_origins.get(name.as_str()) {
                Some(o) => o.duplicate(),
                None => Origin::Default,
            };
            let ghost start = added@;
            let ghost four = declaration_rows(*self, name@, *d);
            let mut stem = crate::text::concat2("tables.", name.as_str());
            stem.append(".");
            let mut key = crate::text::copy(&stem);
            key.append("path");
            added = put(rows, added, key, crate::text::quote(d.path.as_str()), origin.duplicate());
            let mut key = crate::text::copy(&stem);
            key.append("key");
            added = put(rows, added, key, crate::listing::columns_value(&d.key), origin.duplicate());
            let mut key = crate::text::copy(&stem);
            key.append("value");
            added = put(rows, added, key, crate::text::quote(d.value.as_str()), origin.duplicate());
            let mut key = crate::text::copy(&stem);
            key.append("values");
            added = put(rows, added, key, crate::text::quote(d.values.as_str()), origin);
            proof {
                let f = crate::listing::field_texts(*d);
                assert(four[0] == ("tables."@ + name@ + "."@ + f[0].0, f[0].1, origin));
                assert(four[0].0 =~= stem@ + "path"@);
                assert(four[1].0 =~= stem@ + "key"@);
                assert(four[2].0 =~= stem@ + "value"@);
                assert(four[3].0 =~= stem@ + "values"@);
                assert(added@ =~= start + four);
                let next = entries@.take(i + 1);
                assert(next.drop_last() =~= entries@.take(i as int));
                assert(next.last() == entries@[i as int]);
                assert(table_rows(*self, next) == table_rows(*self, entries@.take(i as int))
                    + four);
                assert(before + table_rows(*self, next) =~= start + four);
            }
            i = i + 1;
        }
        assert(entries@.take(i as int) =~= entries@);
        added
    }
}

proof fn lemma_row_for(
    out: Seq<(String, String, Origin)>,
    entries: Seq<(String, (String, Origin))>,
    k: Seq<char>,
)
    requires
        out.len() == entries.len(),
        forall|m: int|
            0 <= m < out.len() ==> (#[trigger] out[m]).0@ == entries[m].0@ && out[m].1@
                == entries[m].1.0@ && out[m].2 == entries[m].1.1,
    ensures
        row_for(out, k) == row_view(crate::dict::find(entries, k)),
    decreases out.len(),
{
    if out.len() > 0 {
        assert forall|m: int| 0 <= m < out.skip(1).len() implies (#[trigger] out.skip(1)[m]).0@
            == entries.skip(1)[m].0@ && out.skip(1)[m].1@ == entries.skip(1)[m].1.0@ && out.skip(
            1,
        )[m].2 == entries.skip(1)[m].1.1 by {
            assert(out.skip(1)[m] == out[m + 1]);
            assert(entries.skip(1)[m] == entries[m + 1]);
        }
        assert(out[0].0@ == entries[0].0@);
        lemma_row_for(out.skip(1), entries.skip(1), k);
    }
}

/// The value and origin wording of the first setting event in `events`
/// with key `k`.
pub open spec fn event_for(events: Seq<crate::event::Event>, k: Seq<char>) -> Option<
    (Seq<char>, Seq<char>),
>
    decreases events.len(),
{
    if events.len() == 0 {
        None
    } else if events[0] matches crate::event::Event::ConfigSetting { key, value, origin } && key@
        == k {
        match events[0] {
            crate::event::Event::ConfigSetting { key, value, origin } => Some((value@, origin@)),
            _ => None,
        }
    } else {
        event_for(events.skip(1), k)
    }
}

/// The key of a setting event.
pub open spec fn event_key(event: crate::event::Event) -> Seq<char> {
    match event {
        crate::event::Event::ConfigSetting { key, .. } => key@,
        _ => Seq::empty(),
    }
}

/// Whether `event` is the setting event for `row`.
pub open spec fn is_setting_event(event: crate::event::Event, row: (String, String, Origin)) -> bool {
    event matches crate::event::Event::ConfigSetting { key, value, origin } && key@ == row.0@
        && value@ == row.1@ && origin@ == crate::config::origin_text(row.2)
}

proof fn lemma_event_for(
    events: Seq<crate::event::Event>,
    rows: Seq<(String, String, Origin)>,
    k: Seq<char>,
)
    requires
        events.len() == rows.len(),
        forall|m: int| 0 <= m < events.len() ==> is_setting_event(#[trigger] events[m], rows[m]),
    ensures
        event_for(events, k) == match row_for(rows, k) {
            Some((v, o)) => Some((v, crate::config::origin_text(o))),
            None => None,
        },
    decreases events.len(),
{
    if events.len() > 0 {
        assert forall|m: int| 0 <= m < events.skip(1).len() implies is_setting_event(
            #[trigger] events.skip(1)[m],
            rows.skip(1)[m],
        ) by {
            assert(events.skip(1)[m] == events[m + 1]);
            assert(rows.skip(1)[m] == rows[m + 1]);
        }
        assert(events[0] matches crate::event::Event::ConfigSetting { .. });
        lemma_event_for(events.skip(1), rows.skip(1), k);
    }
}

impl Effective {
    /// Every setting as `(key, rendered value, origin)`, ordered by key.
    ///
    /// Values render in TOML value syntax, so a line of `borax config`
    /// output can be pasted back into a configuration file; a setting
    /// that is optional and unset renders as the empty string. Unset
    /// settings are listed rather than omitted.
    pub fn entries(&self) -> (r: Vec<(String, String, Origin)>)
        ensures
            forall|i: int, j: int|
                0 <= i < j < r@.len() ==> crate::dict::less(r@[i].0@, r@[j].0@),
            forall|k: Seq<char>| #[trigger] row_for(r@, k) == last_row(all_rows(*self), k),
    {
        let mut rows: Dict<(String, Origin)> = Dict::new();
        let added = self.put_settings(&mut rows);
        let added = self.put_templates(&mut rows, added, false);
        let added = self.put_templates(&mut rows, added, true);
        let added = self.put_tables(&mut rows, added);
        assert(added@ =~= all_rows(*self));
        let mut r: Vec<(String, String, Origin)> = Vec::new();
        let mut i: usize = 0;
        while i < rows.entries.len()
            invariant
                i <= rows.entries@.len(),
                r@.len() == i,
                forall|m: int|
                    0 <= m < i ==> (#[trigger] r@[m]).0@ == rows.entries@[m].0@ && r@[m].1@
                        == rows.entries@[m].1.0@ && r@[m].2 == rows.entries@[m].1.1,
            decreases rows.entries@.len() - i,
        {
            let entry = &rows.entries[i];
            r.push((entry.0.clone(), entry.1.0.clone(), entry.1.1.duplicate()));
            i = i + 1;
        }
        proof {
            assert forall|k: Seq<char>| #[trigger] row_for(r@, k) == last_row(all_rows(*self), k) by {
                lemma_row_for(r@, rows.entries@, k);
                assert(row_view(rows.get_spec(k)) == last_row(added@, k));
            }
        }
        r
    }

    /// Every setting as a setting event, in key order: the event stream
    /// `borax config` writes, carrying the same key, rendered value and
    /// origin wording that [`Effective::entries`] produces.
    pub fn events(&self) -> (r: Vec<crate::event::Event>)
        ensures
            forall|i: int| 0 <= i < r@.len() ==> #[trigger] r@[i] is ConfigSetting,
            forall|i: int, j: int|
                0 <= i < j < r@.len() ==> crate::dict::less(event_key(r@[i]), event_key(r@[j])),
            forall|k: Seq<char>| #[trigger] event_for(r@, k) == match last_row(all_rows(*self), k) {
                Some((v, o)) => Some((v, crate::config::origin_text(o))),
                None => None,
            },
    {
        let rows = self.entries();
        let mut r: Vec<crate::event::Event> = Vec::new();
        let mut i: usize = 0;
        while i < rows.len()
            invariant
                i <= rows@.len(),
                r@.len() == i,
                forall|m: int| 0 <= m < i ==> is_setting_event(#[trigger] r@[m], rows@[m]),
            decreases rows@.len() - i,
        {
            let row = &rows[i];
            r.push(
                crate::event::Event::ConfigSetting {
                    key: row.0.clone(),
                    value: row.1.clone(),
                    origin: row.2.text(),
                },
            );
            i = i + 1;
        }
        proof {
            assert forall|i: int| 0 <= i < r@.len() implies #[trigger] r@[i] is ConfigSetting by {
                assert(is_setting_event(r@[i], rows@[i]));
            }
            assert forall|a: int, b: int| 0 <= a < b < r@.len() implies crate::dict::less(
                event_key(r@[a]),
                event_key(r@[b]),
            ) by {
                assert(r@[a] matches crate::event::Event::ConfigSetting { .. });
                assert(r@[b] matches crate::event::Event::ConfigSetting { .. });
            }
            assert forall|k: Seq<char>| #[trigger] event_for(r@, k) == match last_row(
                all_rows(*self),
                k,
            ) {
                Some((v, o)) => Some((v, crate::config::origin_text(o))),
                None => None,
            } by {
                lemma_event_for(r@, rows@, k);
            }
        }
        r
    }
}

/// A template some layer defines for entry type `k` has a newest
/// definition.
proof fn lemma_newest_template_defined(
    layers: Seq<(Origin, Layer)>,
    citation: bool,
    k: Seq<char>,
    i: int,
)
    requires
        0 <= i < layers.len(),
        template_table(layers[i].1, citation) matches Some(d) && d.get_spec(k) is Some,
    ensures
        newest_template(layers, citation, k) is Some,
    decreases layers.len(),
{
    if i > 0 {
        assert(layers.skip(1)[i - 1] == layers[i]);
        lemma_newest_template_defined(layers.skip(1), citation, k, i - 1);
    }
}

/// Merging removes no template: every entry type a layer gives a
/// template for has one in the merged configuration, and so does
/// `default`, whatever the layers say.
pub proof fn merging_keeps_every_template(
    e: Effective,
    layers: Seq<(Origin, Layer)>,
    citation: bool,
    i: int,
    k: Seq<char>,
)
    requires
        resolves_to(e, layers),
        0 <= i < layers.len(),
        template_table(layers[i].1, citation) matches Some(d) && d.get_spec(k) is Some,
    ensures
        templates_of(e.settings(), citation).get_spec(k) is Some,
        templates_of(e.settings(), citation).get_spec("default"@) is Some,
{
    lemma_newest_template_defined(layers, citation, k, i);
    assert(text_of(templates_of(e.settings(), citation).get_spec(k)) == resolved_template(
        layers,
        citation,
        k,
    ));
    assert(text_of(templates_of(e.settings(), citation).get_spec("default"@)) == resolved_template(
        layers,
        citation,
        "default"@,
    ));
}

/// A row key no row carries finds nothing; one that is found is some
/// row's.
proof fn lemma_row_for_keys(rows: Seq<(String, String, Origin)>, k: Seq<char>)
    ensures
        row_for(rows, k) is Some ==> exists|i: int| 0 <= i < rows.len() && #[trigger] rows[i].0@ == k,
        (forall|i: int| 0 <= i < rows.len() ==> #[trigger] rows[i].0@ != k) ==> row_for(rows, k) is None,
    decreases rows.len(),
{
    if rows.len() > 0 {
        lemma_row_for_keys(rows.skip(1), k);
        if row_for(rows, k) is Some && rows[0].0@ != k {
            let j = choose|j: int| 0 <= j < rows.skip(1).len() && #[trigger] rows.skip(1)[j].0@ == k;
            assert(rows[j + 1].0@ == k);
        }
        if forall|i: int| 0 <= i < rows.len() ==> #[trigger] rows[i].0@ != k {
            assert forall|i: int| 0 <= i < rows.skip(1).len() implies #[trigger] rows.skip(1)[i].0@
                != k by {
                assert(rows.skip(1)[i] == rows[i + 1]);
            }
        }
    }
}

/// The same for setting events.
proof fn lemma_event_for_keys(events: Seq<crate::event::Event>, k: Seq<char>)
    requires
        forall|i: int| 0 <= i < events.len() ==> #[trigger] events[i] is ConfigSetting,
    ensures
        event_for(events, k) is Some ==> exists|i: int|
            0 <= i < events.len() && #[trigger] event_key(events[i]) == k,
        (forall|i: int| 0 <= i < events.len() ==> #[trigger] event_key(events[i]) != k) ==> event_for(
            events,
            k,
        ) is None,
    decreases events.len(),
{
    if events.len() > 0 {
        assert forall|i: int| 0 <= i < events.skip(1).len() implies #[trigger] events.skip(1)[i] is ConfigSetting by {
            assert(events.skip(1)[i] == events[i + 1]);
        }
        assert(events[0] is ConfigSetting);
        lemma_event_for_keys(events.skip(1), k);
        if event_for(events, k) is Some && event_key(events[0]) != k {
            let j = choose|j: int|
                0 <= j < events.skip(1).len() && #[trigger] event_key(events.skip(1)[j]) == k;
            assert(event_key(events[j + 1]) == k);
        }
        if forall|i: int| 0 <= i < events.len() ==> #[trigger] event_key(events[i]) != k {
            assert forall|i: int| 0 <= i < events.skip(1).len() implies #[trigger] event_key(
                events.skip(1)[i],
            ) != k by {
                assert(events.skip(1)[i] == events[i + 1]);
            }
        }
    }
}

/// The value and origin wording a row gives, as a setting event says it.
pub open spec fn worded(row: Option<(Seq<char>, Origin)>) -> Option<(Seq<char>, Seq<char>)> {
    match row {
        Some((v, o)) => Some((v, crate::config::origin_text(o))),
        None => None,
    }
}

proof fn lemma_same_listing(rows: Seq<(String, String, Origin)>, events: Seq<crate::event::Event>)
    requires
        forall|i: int, j: int| 0 <= i < j < rows.len() ==> crate::dict::less(rows[i].0@, rows[j].0@),
        forall|i: int, j: int|
            0 <= i < j < events.len() ==> crate::dict::less(event_key(events[i]), event_key(events[j])),
        forall|i: int| 0 <= i < events.len() ==> #[trigger] events[i] is ConfigSetting,
        forall|k: Seq<char>| #[trigger] event_for(events, k) == worded(row_for(rows, k)),
    ensures
        events.len() == rows.len(),
        forall|i: int| 0 <= i < rows.len() ==> is_setting_event(#[trigger] events[i], rows[i]),
    decreases rows.len(),
{
    if rows.len() == 0 {
        if events.len() > 0 {
            let k = event_key(events[0]);
            lemma_event_for_keys(events, k);
            lemma_row_for_keys(rows, k);
            assert(event_for(events, k) is Some);
        }
        return;
    }
    let a = rows[0].0@;
    lemma_row_for_keys(rows, a);
    lemma_event_for_keys(events, a);
    assert(row_for(rows, a) is Some);
    assert(event_for(events, a) is Some);
    let j = choose|j: int| 0 <= j < events.len() && #[trigger] event_key(events[j]) == a;
    let b = event_key(events[0]);
    if b != a {
        assert(j > 0);
        lemma_event_for_keys(events, b);
        lemma_row_for_keys(rows, b);
        assert(event_for(events, b) is Some);
        let i = choose|i: int| 0 <= i < rows.len() && #[trigger] rows[i].0@ == b;
        assert(i > 0);
        assert(crate::dict::less(b, a));
        assert(crate::dict::less(a, b));
        crate::dict::lemma_less_asymmetric(a, b);
    }
    assert(is_setting_event(events[0], rows[0]));
    let rt = rows.skip(1);
    let et = events.skip(1);
    assert forall|i: int| 0 <= i < et.len() implies #[trigger] et[i] is ConfigSetting by {
        assert(et[i] == events[i + 1]);
    }
    assert forall|k: Seq<char>| #[trigger] event_for(et, k) == worded(row_for(rt, k)) by {
        if k == a {
            assert forall|i: int| 0 <= i < rt.len() implies #[trigger] rt[i].0@ != k by {
                assert(rt[i] == rows[i + 1]);
                assert(crate::dict::less(a, rows[i + 1].0@));
                crate::dict::lemma_less_irreflexive(a);
            }
            assert forall|i: int| 0 <= i < et.len() implies #[trigger] event_key(et[i]) != k by {
                assert(et[i] == events[i + 1]);
                assert(crate::dict::less(a, event_key(events[i + 1])));
                crate::dict::lemma_less_irreflexive(a);
            }
            lemma_row_for_keys(rt, k);
            lemma_event_for_keys(et, k);
        } else {
            assert(event_for(events, k) == worded(row_for(rows, k)));
        }
    }
    assert forall|x: int, y: int| 0 <= x < y < rt.len() implies crate::dict::less(
        rt[x].0@,
        rt[y].0@,
    ) by {
        assert(rt[x] == rows[x + 1] && rt[y] == rows[y + 1]);
    }
    assert forall|x: int, y: int| 0 <= x < y < et.len() implies crate::dict::less(
        event_key(et[x]),
        event_key(et[y]),
    ) by {
        assert(et[x] == events[x + 1] && et[y] == events[y + 1]);
    }
    lemma_same_listing(rt, et);
    assert forall|i: int| 0 <= i < rows.len() implies is_setting_event(#[trigger] events[i], rows[i]) by {
        if i > 0 {
            assert(events[i] == et[i - 1] && rows[i] == rt[i - 1]);
        }
    }
}

/// `borax config`'s event stream is its listing, row for row: whatever
/// [`Effective::entries`] and [`Effective::events`] give for the same
/// configuration, there are as many events as rows, and the event at
/// each position carries that row's key, value and origin.
pub proof fn events_are_the_entries(
    e: Effective,
    rows: Seq<(String, String, Origin)>,
    events: Seq<crate::event::Event>,
)
    requires
        forall|i: int, j: int| 0 <= i < j < rows.len() ==> crate::dict::less(rows[i].0@, rows[j].0@),
        forall|k: Seq<char>| #[trigger] row_for(rows, k) == last_row(all_rows(e), k),
        forall|i: int| 0 <= i < events.len() ==> #[trigger] events[i] is ConfigSetting,
        forall|i: int, j: int|
            0 <= i < j < events.len() ==> crate::dict::less(event_key(events[i]), event_key(events[j])),
        forall|k: Seq<char>| #[trigger] event_for(events, k) == match last_row(all_rows(e), k) {
            Some((v, o)) => Some((v, crate::config::origin_text(o))),
            None => None,
        },
    ensures
        events.len() == rows.len(),
        forall|i: int| 0 <= i < rows.len() ==> is_setting_event(#[trigger] events[i], rows[i]),
{
    assert forall|k: Seq<char>| #[trigger] event_for(events, k) == worded(row_for(rows, k)) by {
        assert(row_for(rows, k) == last_row(all_rows(e), k));
    }
    lemma_same_listing(rows, events);
}

/// A layer added above the others decides every setting it mentions,
/// value and origin, and leaves every setting it is silent about to the
/// layers below it: merging is per key, not per layer.
pub proof fn later_layer_wins(
    layers: Seq<(Origin, Layer)>,
    origin: Origin,
    layer: Layer,
    key: SettingKey,
)
    ensures
        resolved_slot(layers.push((origin, layer)), key) == match slot(layer, key) {
            Some(v) => Some(v),
            None => resolved_slot(layers, key),
        },
        winning_origin(layers.push((origin, layer)), key) == (if slot(layer, key) is Some {
            origin
        } else {
            winning_origin(layers, key)
        }),
{
    let pushed = layers.push((origin, layer));
    assert(pushed.drop_last() =~= layers);
    assert(pushed.last() == (origin, layer));
    lemma_winner_bounds(layers, key);
}

proof fn lemma_newest_template_push(
    layers: Seq<(Origin, Layer)>,
    origin: Origin,
    layer: Layer,
    citation: bool,
    k: Seq<char>,
)
    ensures
        newest_template(layers.push((origin, layer)), citation, k) == match template_table(
            layer,
            citation,
        ) {
            Some(d) => match d.get_spec(k) {
                Some(v) => Some((origin, v)),
                None => newest_template(layers, citation, k),
            },
            None => newest_template(layers, citation, k),
        },
    decreases layers.len(),
{
    let pushed = layers.push((origin, layer));
    if layers.len() == 0 {
        assert(pushed.skip(1) =~= Seq::<(Origin, Layer)>::empty());
        assert(pushed[0] == (origin, layer));
        assert(newest_template(pushed.skip(1), citation, k) is None);
    } else {
        assert(pushed.skip(1) =~= layers.skip(1).push((origin, layer)));
        assert(pushed[0] == layers[0]);
        lemma_newest_template_push(layers.skip(1), origin, layer, citation, k);
    }
}

/// Templates merge per entry type: a layer added above the others that
/// defines a template for one entry type decides that entry type alone,
/// and every entry type it leaves undefined, `default` among them,
/// keeps the template the layers below gave it.
pub proof fn templates_merge_per_entry_type(
    layers: Seq<(Origin, Layer)>,
    origin: Origin,
    layer: Layer,
    citation: bool,
    k: Seq<char>,
)
    ensures
        resolved_template(layers.push((origin, layer)), citation, k) == match template_table(
            layer,
            citation,
        ) {
            Some(d) => match d.get_spec(k) {
                Some(v) => Some(v@),
                None => resolved_template(layers, citation, k),
            },
            None => resolved_template(layers, citation, k),
        },
        resolved_template_origin(layers.push((origin, layer)), citation, k) == match template_table(
            layer,
            citation,
        ) {
            Some(d) => match d.get_spec(k) {
                Some(v) => Some(origin),
                None => resolved_template_origin(layers, citation, k),
            },
            None => resolved_template_origin(layers, citation, k),
        },
{
    lemma_newest_template_push(layers, origin, layer, citation, k);
}

/// With no layers at all, every setting takes its built-in value and
/// the defaults as its origin, the templates are the built-in ones, and
/// no lookup table is declared.
pub proof fn no_layers_mean_defaults(key: SettingKey, citation: bool, k: Seq<char>)
    ensures
        resolved_slot(Seq::empty(), key) == default_slot(key),
        winning_origin(Seq::empty(), key) == Origin::Default,
        resolved_sources(Seq::empty()) == source_names(crate::config::supported_sources()),
        resolved_template(Seq::empty(), citation, k) == (if k == "default"@ {
            Some(default_template(citation))
        } else {
            None
        }),
        newest_table(Seq::empty(), k) is None,
{
}

} // verus!
