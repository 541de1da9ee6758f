//! Settings, where they come from, and which one wins.
//!
//! Configuration arrives in layers — built-in defaults, a global file, a
//! per-directory override, the environment, the command line — and the
//! effective value of every setting is the one from the
//! highest-precedence layer that mentioned it. Which layer that was is
//! kept alongside the value, because `borax config` has to answer "why
//! is this the template?".

use vstd::prelude::*;
use crate::dict::Dict;
use crate::text::{decimal, decimal_spec, push_char, quote, quoted, same};

verus! {

/// The file a directory-level override is read from.
pub const OVERRIDE_FILE: &'static str = ".borax.toml";

/// The prefix an environment variable needs to be read as a setting.
pub const ENV_PREFIX: &'static str = "BORAX_";

/// How many files may be resolved at once, unless configured.
pub const DEFAULT_CONCURRENCY: usize = 4;

/// The floor on the gap between two requests to one service, in
/// milliseconds, unless configured.
pub const DEFAULT_MIN_INTERVAL_MS: u64 = 1000;

/// How many pages of a PDF the text-layer pass reads, unless configured.
pub const DEFAULT_PAGE_LIMIT: usize = 2;

/// The filename template every entry type without one of its own uses.
pub const DEFAULT_FILENAME_TEMPLATE: &'static str = "[auth:lower][year]_[shorttitle3:camel]";

/// The citation-key template every entry type without one of its own
/// uses.
pub const DEFAULT_CITATION_KEY_TEMPLATE: &'static str = "[auth:lower][year]";

/// What to do when two files want the same name.
#[derive(Debug, Clone, Copy, PartialEq, Eq, Structural)]
pub enum CollisionPolicy {
    /// Give the later file a numbered suffix.
    Suffix,
    /// Leave the later file alone.
    Skip,
}

/// What to do when an entry is already in the master `.bib`.
#[derive(Debug, Clone, Copy, PartialEq, Eq, Structural)]
pub enum DuplicatePolicy {
    /// Leave the existing entry.
    Skip,
    /// Replace the existing entry.
    Update,
}

/// A metadata service borax may ask.
#[derive(Debug, Clone, Copy, PartialEq, Eq, Structural)]
pub enum SourceName {
    Crossref,
    OpenAlex,
    Arxiv,
}

/// The name a configuration gives `source`.
pub open spec fn source_text(source: SourceName) -> Seq<char> {
    match source {
        SourceName::Crossref => "crossref"@,
        SourceName::OpenAlex => "openalex"@,
        SourceName::Arxiv => "arxiv"@,
    }
}

/// The service a configuration names `name`.
pub open spec fn source_named(name: Seq<char>) -> Option<SourceName> {
    if name == "crossref"@ {
        Some(SourceName::Crossref)
    } else if name == "openalex"@ {
        Some(SourceName::OpenAlex)
    } else if name == "arxiv"@ {
        Some(SourceName::Arxiv)
    } else {
        None
    }
}

impl SourceName {
    /// The name a configuration gives this service.
    pub fn as_str(self) -> (r: &'static str)
        ensures
            r@ == source_text(self),
    {
        match self {
            SourceName::Crossref => "crossref",
            SourceName::OpenAlex => "openalex",
            SourceName::Arxiv => "arxiv",
        }
    }

    /// The service `name` names, if borax speaks to one by that name.
    pub fn parse(name: &str) -> (r: Option<SourceName>)
        ensures
            r == source_named(name@),
    {
        if same(name, "crossref") {
            Some(SourceName::Crossref)
        } else if same(name, "openalex") {
            Some(SourceName::OpenAlex)
        } else if same(name, "arxiv") {
            Some(SourceName::Arxiv)
        } else {
            None
        }
    }
}

/// Every service borax speaks to, in the order it lists them.
pub open spec fn supported_sources() -> Seq<SourceName> {
    seq![SourceName::Crossref, SourceName::OpenAlex, SourceName::Arxiv]
}

/// Every service borax speaks to.
pub fn all_sources() -> (r: Vec<SourceName>)
    ensures
        r@ == supported_sources(),
{
    let r = vec![SourceName::Crossref, SourceName::OpenAlex, SourceName::Arxiv];
    assert(r@ =~= supported_sources());
    r
}

/// The sources a configuration may name, as a quoted, comma-separated
/// list for an error message.
pub fn supported() -> (r: &'static str)
    ensures
        r@ == "\"crossref\", \"openalex\", \"arxiv\""@,
{
    "\"crossref\", \"openalex\", \"arxiv\""
}

/// The key columns of a table declaration, written as one name or as a
/// list of them.
#[derive(Debug, Clone, PartialEq, Eq)]
pub enum KeyColumns {
    One(String),
    Many(Vec<String>),
}

impl KeyColumns {
    /// The columns named, in the order given.
    pub fn columns(&self) -> (r: Vec<String>)
        ensures
            r@.map_values(|s: String| s@) == (match self {
                KeyColumns::One(column) => seq![column@],
                KeyColumns::Many(columns) => columns@.map_values(|s: String| s@),
            }),
    {
        match self {
            KeyColumns::One(column) => {
                let r = vec![column.clone()];
                assert(r@.map_values(|s: String| s@) =~= seq![column@]);
                r
            },
            KeyColumns::Many(columns) => copy_strings(columns),
        }
    }
}

/// A copy of `strings`, element by element.
pub fn copy_strings(strings: &Vec<String>) -> (r: Vec<String>)
    ensures
        r@.map_values(|s: String| s@) == strings@.map_values(|s: String| s@),
        r@ == strings@,
{
    let mut r: Vec<String> = Vec::new();
    let mut i: usize = 0;
    while i < strings.len()
        invariant
            i <= strings@.len(),
            r@ == strings@.take(i as int),
        decreases strings@.len() - i,
    {
        r.push(strings[i].clone());
        assert(strings@.take(i + 1) =~= strings@.take(i as int).push(strings@[i as int]));
        i = i + 1;
    }
    assert(strings@.take(strings@.len() as int) =~= strings@);
    r
}

/// Whether a table's values are literal text or template fragments.
#[derive(Debug, Clone, Copy, PartialEq, Eq, Structural)]
pub enum ValueKind {
    Text,
    Template,
}

/// How a declaration spells [`ValueKind`].
#[derive(Debug, Clone, Copy, PartialEq, Eq, Structural)]
pub enum ValueKindName {
    Text,
    Template,
}

impl ValueKindName {
    /// The kind this names.
    pub fn kind(self) -> (k: ValueKind)
        ensures
            k == (match self {
                ValueKindName::Text => ValueKind::Text,
                ValueKindName::Template => ValueKind::Template,
            }),
    {
        match self {
            ValueKindName::Text => ValueKind::Text,
            ValueKindName::Template => ValueKind::Template,
        }
    }

    /// The word a configuration file writes for this kind.
    pub fn as_str(self) -> (r: &'static str)
        ensures
            r@ == (match self {
                ValueKindName::Text => "text"@,
                ValueKindName::Template => "template"@,
            }),
    {
        match self {
            ValueKindName::Text => "text",
            ValueKindName::Template => "template",
        }
    }
}

/// One `[tables.<name>]` declaration: the file to read and which of its
/// columns mean what.
#[derive(Debug, Clone, PartialEq, Eq)]
pub struct TableDeclaration {
    /// The file to read, relative to the declaring file's directory
    /// unless absolute.
    pub path: String,
    /// The column, or columns, supplying keys.
    pub key: KeyColumns,
    /// The column supplying values.
    pub value: String,
    /// Whether values are literal text or template fragments.
    pub values: ValueKindName,
}

/// Where the table `declared` is read from, given the configuration
/// file that declared it: itself when absolute, and otherwise taken from
/// the directory holding `config_file`.
pub open spec fn table_path_spec(declared: Seq<char>, config_file: Seq<char>) -> Seq<char> {
    if crate::paths::absolute(declared) {
        declared
    } else {
        match crate::paths::parent_spec(config_file) {
            Some(directory) => crate::paths::join_spec(directory, declared),
            None => declared,
        }
    }
}

/// `declared` as the run should read it, given the configuration file
/// that declared it.
pub fn table_path(declared: &str, config_file: &str) -> (r: String)
    ensures
        r@ == table_path_spec(declared@, config_file@),
{
    if crate::paths::is_absolute(declared) {
        return String::from_str(declared);
    }
    match crate::paths::parent(config_file) {
        Some(directory) => crate::paths::join(directory.as_str(), declared),
        None => String::from_str(declared),
    }
}

/// The `[rename]` table of a layer.
#[derive(Debug, Clone, PartialEq, Eq)]
pub struct RenameLayer {
    /// `"suffix"` or `"skip"`.
    pub collision: Option<String>,
}

/// The `[bib]` table of a layer.
#[derive(Debug, Clone, PartialEq, Eq)]
pub struct BibLayer {
    pub path: Option<String>,
    /// `"skip"` or `"update"`.
    pub duplicates: Option<String>,
    pub sidecars: Option<bool>,
}

/// The `[extraction]` table of a layer.
#[derive(Debug, Clone, PartialEq, Eq)]
pub struct ExtractionLayer {
    pub page_limit: Option<usize>,
}

/// The `[network]` table of a layer.
#[derive(Debug, Clone, PartialEq, Eq)]
pub struct NetworkLayer {
    pub concurrency: Option<usize>,
    pub min_interval_ms: Option<u64>,
    pub cache: Option<bool>,
}

/// One layer of configuration: the settings a single source of
/// configuration had an opinion about. A field left `None` is a setting
/// the layer is silent about, which lets a lower layer show through.
#[derive(Debug, Clone, PartialEq, Eq)]
pub struct Layer {
    pub templates: Option<Dict<String>>,
    pub citation_keys: Option<Dict<String>>,
    pub tables: Option<Dict<TableDeclaration>>,
    pub sources: Option<Vec<String>>,
    pub mailto: Option<String>,
    pub collection_root: Option<String>,
    pub ledger: Option<bool>,
    pub run_log: Option<bool>,
    pub rename: Option<RenameLayer>,
    pub bib: Option<BibLayer>,
    pub extraction: Option<ExtractionLayer>,
    pub network: Option<NetworkLayer>,
}

/// The layer that is silent about everything.
pub open spec fn silent() -> Layer {
    Layer {
        templates: None,
        citation_keys: None,
        tables: None,
        sources: None,
        mailto: None,
        collection_root: None,
        ledger: None,
        run_log: None,
        rename: None,
        bib: None,
        extraction: None,
        network: None,
    }
}

impl Layer {
    /// The layer that is silent about everything.
    pub fn empty() -> (l: Layer)
        ensures
            l == silent(),
    {
        Layer {
            templates: None,
            citation_keys: None,
            tables: None,
            sources: None,
            mailto: None,
            collection_root: None,
            ledger: None,
            run_log: None,
            rename: None,
            bib: None,
            extraction: None,
            network: None,
        }
    }
}

/// Where a value came from. Precedence rises in declaration order.
#[derive(Debug, Clone, PartialEq, Eq)]
pub enum Origin {
    /// The built-in defaults.
    Default,
    /// The global configuration file.
    GlobalFile(String),
    /// The nearest `.borax.toml` above an input file.
    DirectoryFile(String),
    /// An environment variable, named without its prefix.
    Env(String),
    /// A command-line flag, named as the user would type it.
    Flag(String),
}

/// How `borax config` writes an origin: `defaults`, `global <path>`,
/// `override <path>`, `env BORAX_<NAME>`, or `flag --<name>`.
pub open spec fn origin_text(origin: Origin) -> Seq<char> {
    match origin {
        Origin::Default => "defaults"@,
        Origin::GlobalFile(path) => "global "@ + path@,
        Origin::DirectoryFile(path) => "override "@ + path@,
        Origin::Env(name) => "env "@ + "BORAX_"@ + name@,
        Origin::Flag(name) => "flag --"@ + name@,
    }
}

impl Origin {
    /// The origin column of `borax config`.
    pub fn text(&self) -> (r: String)
        ensures
            r@ == origin_text(*self),
    {
        match self {
            Origin::Default => String::from_str("defaults"),
            Origin::GlobalFile(path) => crate::text::concat2("global ", path.as_str()),
            Origin::DirectoryFile(path) => crate::text::concat2("override ", path.as_str()),
            Origin::Env(name) => {
                let mut r = String::from_str("env ");
                r.append(ENV_PREFIX);
                r.append(name.as_str());
                r
            },
            Origin::Flag(name) => crate::text::concat2("flag --", name.as_str()),
        }
    }

    /// A copy of this origin.
    pub fn duplicate(&self) -> (r: Origin)
        ensures
            r == *self,
    {
        match self {
            Origin::Default => Origin::Default,
            Origin::GlobalFile(path) => Origin::GlobalFile(path.clone()),
            Origin::DirectoryFile(path) => Origin::DirectoryFile(path.clone()),
            Origin::Env(name) => Origin::Env(name.clone()),
            Origin::Flag(name) => Origin::Flag(name.clone()),
        }
    }
}

/// The word a configuration writes for `policy`.
pub open spec fn collision_text(policy: CollisionPolicy) -> Seq<char> {
    match policy {
        CollisionPolicy::Suffix => "suffix"@,
        CollisionPolicy::Skip => "skip"@,
    }
}

/// The word a configuration writes for `policy`.
pub open spec fn duplicates_text(policy: DuplicatePolicy) -> Seq<char> {
    match policy {
        DuplicatePolicy::Skip => "skip"@,
        DuplicatePolicy::Update => "update"@,
    }
}

/// The collision policy `value` names.
pub open spec fn collision_named(value: Seq<char>) -> Option<CollisionPolicy> {
    if value == "suffix"@ {
        Some(CollisionPolicy::Suffix)
    } else if value == "skip"@ {
        Some(CollisionPolicy::Skip)
    } else {
        None
    }
}

/// The duplicate policy `value` names.
pub open spec fn duplicates_named(value: Seq<char>) -> Option<DuplicatePolicy> {
    if value == "skip"@ {
        Some(DuplicatePolicy::Skip)
    } else if value == "update"@ {
        Some(DuplicatePolicy::Update)
    } else {
        None
    }
}

/// The word a configuration writes for `policy`.
pub fn collision_name(policy: CollisionPolicy) -> (r: &'static str)
    ensures
        r@ == collision_text(policy),
{
    match policy {
        CollisionPolicy::Suffix => "suffix",
        CollisionPolicy::Skip => "skip",
    }
}

/// The collision policy `value` names.
pub fn parse_collision(value: &str) -> (r: Option<CollisionPolicy>)
    ensures
        r == collision_named(value@),
{
    if same(value, "suffix") {
        Some(CollisionPolicy::Suffix)
    } else if same(value, "skip") {
        Some(CollisionPolicy::Skip)
    } else {
        None
    }
}

/// The word a configuration writes for `policy`.
pub fn duplicates_name(policy: DuplicatePolicy) -> (r: &'static str)
    ensures
        r@ == duplicates_text(policy),
{
    match policy {
        DuplicatePolicy::Skip => "skip",
        DuplicatePolicy::Update => "update",
    }
}

/// The duplicate policy `value` names.
pub fn parse_duplicates(value: &str) -> (r: Option<DuplicatePolicy>)
    ensures
        r == duplicates_named(value@),
{
    if same(value, "skip") {
        Some(DuplicatePolicy::Skip)
    } else if same(value, "update") {
        Some(DuplicatePolicy::Update)
    } else {
        None
    }
}

/// Every setting that holds a single value, in key order.
#[derive(Debug, Clone, Copy, PartialEq, Eq, Structural)]
pub enum SettingKey {
    BibDuplicates,
    BibPath,
    BibSidecars,
    CollectionRoot,
    ExtractionPageLimit,
    Ledger,
    Mailto,
    NetworkCache,
    NetworkConcurrency,
    NetworkMinIntervalMs,
    RenameCollision,
    RunLog,
    Sources,
}

/// The dotted name a setting is addressed by.
pub open spec fn key_text(key: SettingKey) -> Seq<char> {
    match key {
        SettingKey::BibDuplicates => "bib.duplicates"@,
        SettingKey::BibPath => "bib.path"@,
        SettingKey::BibSidecars => "bib.sidecars"@,
        SettingKey::CollectionRoot => "collection-root"@,
        SettingKey::ExtractionPageLimit => "extraction.page-limit"@,
        SettingKey::Ledger => "ledger"@,
        SettingKey::Mailto => "mailto"@,
        SettingKey::NetworkCache => "network.cache"@,
        SettingKey::NetworkConcurrency => "network.concurrency"@,
        SettingKey::NetworkMinIntervalMs => "network.min-interval-ms"@,
        SettingKey::RenameCollision => "rename.collision"@,
        SettingKey::RunLog => "run-log"@,
        SettingKey::Sources => "sources"@,
    }
}

/// Every single-valued setting, in key order.
pub open spec fn setting_keys() -> Seq<SettingKey> {
    seq![
        SettingKey::BibDuplicates,
        SettingKey::BibPath,
        SettingKey::BibSidecars,
        SettingKey::CollectionRoot,
        SettingKey::ExtractionPageLimit,
        SettingKey::Ledger,
        SettingKey::Mailto,
        SettingKey::NetworkCache,
        SettingKey::NetworkConcurrency,
        SettingKey::NetworkMinIntervalMs,
        SettingKey::RenameCollision,
        SettingKey::RunLog,
        SettingKey::Sources,
    ]
}

impl SettingKey {
    /// The dotted name this setting is addressed by.
    pub fn name(self) -> (r: &'static str)
        ensures
            r@ == key_text(self),
    {
        match self {
            SettingKey::BibDuplicates => "bib.duplicates",
            SettingKey::BibPath => "bib.path",
            SettingKey::BibSidecars => "bib.sidecars",
            SettingKey::CollectionRoot => "collection-root",
            SettingKey::ExtractionPageLimit => "extraction.page-limit",
            SettingKey::Ledger => "ledger",
            SettingKey::Mailto => "mailto",
            SettingKey::NetworkCache => "network.cache",
            SettingKey::NetworkConcurrency => "network.concurrency",
            SettingKey::NetworkMinIntervalMs => "network.min-interval-ms",
            SettingKey::RenameCollision => "rename.collision",
            SettingKey::RunLog => "run-log",
            SettingKey::Sources => "sources",
        }
    }
}

/// Every single-valued setting, in key order.
pub fn settings_in_order() -> (r: Vec<SettingKey>)
    ensures
        r@ == setting_keys(),
{
    let r = vec![
        SettingKey::BibDuplicates,
        SettingKey::BibPath,
        SettingKey::BibSidecars,
        SettingKey::CollectionRoot,
        SettingKey::ExtractionPageLimit,
        SettingKey::Ledger,
        SettingKey::Mailto,
        SettingKey::NetworkCache,
        SettingKey::NetworkConcurrency,
        SettingKey::NetworkMinIntervalMs,
        SettingKey::RenameCollision,
        SettingKey::RunLog,
        SettingKey::Sources,
    ];
    assert(r@ =~= setting_keys());
    r
}

/// The value a layer gives one setting.
pub enum SettingValue {
    Text(Seq<char>),
    Count(nat),
    Flag(bool),
    List(Seq<String>),
}

/// An optional string as a setting's value.
pub open spec fn text_value(o: Option<String>) -> Option<SettingValue> {
    match o {
        Some(s) => Some(SettingValue::Text(s@)),
        None => None,
    }
}

/// An optional flag as a setting's value.
pub open spec fn flag_value(o: Option<bool>) -> Option<SettingValue> {
    match o {
        Some(b) => Some(SettingValue::Flag(b)),
        None => None,
    }
}

/// An optional count as a setting's value.
pub open spec fn count_value(o: Option<usize>) -> Option<SettingValue> {
    match o {
        Some(n) => Some(SettingValue::Count(n as nat)),
        None => None,
    }
}

/// What `layer` says about the setting `key`, or `None` when it is
/// silent about it.
pub open spec fn slot(layer: Layer, key: SettingKey) -> Option<SettingValue> {
    match key {
        SettingKey::BibDuplicates => match layer.bib {
            Some(bib) => text_value(bib.duplicates),
            None => None,
        },
        SettingKey::BibPath => match layer.bib {
            Some(bib) => text_value(bib.path),
            None => None,
        },
        SettingKey::BibSidecars => match layer.bib {
            Some(bib) => flag_value(bib.sidecars),
            None => None,
        },
        SettingKey::CollectionRoot => text_value(layer.collection_root),
        SettingKey::ExtractionPageLimit => match layer.extraction {
            Some(extraction) => count_value(extraction.page_limit),
            None => None,
        },
        SettingKey::Ledger => flag_value(layer.ledger),
        SettingKey::Mailto => text_value(layer.mailto),
        SettingKey::NetworkCache => match layer.network {
            Some(network) => flag_value(network.cache),
            None => None,
        },
        SettingKey::NetworkConcurrency => match layer.network {
            Some(network) => count_value(network.concurrency),
            None => None,
        },
        SettingKey::NetworkMinIntervalMs => match layer.network {
            Some(network) => match network.min_interval_ms {
                Some(ms) => Some(SettingValue::Count(ms as nat)),
                None => None,
            },
            None => None,
        },
        SettingKey::RenameCollision => match layer.rename {
            Some(rename) => text_value(rename.collision),
            None => None,
        },
        SettingKey::RunLog => flag_value(layer.run_log),
        SettingKey::Sources => match layer.sources {
            Some(sources) => Some(SettingValue::List(sources@)),
            None => None,
        },
    }
}

/// Whether every section `layer` carries sets something: a layer holds
/// a section only for the settings in it, so its settings and its
/// tables determine it.
pub open spec fn tidy(layer: Layer) -> bool {
    &&& layer.bib is Some ==> slot(layer, SettingKey::BibPath) is Some || slot(
        layer,
        SettingKey::BibDuplicates,
    ) is Some || slot(layer, SettingKey::BibSidecars) is Some
    &&& layer.network is Some ==> slot(layer, SettingKey::NetworkConcurrency) is Some || slot(
        layer,
        SettingKey::NetworkMinIntervalMs,
    ) is Some || slot(layer, SettingKey::NetworkCache) is Some
    &&& layer.rename is Some ==> slot(layer, SettingKey::RenameCollision) is Some
    &&& layer.extraction is Some ==> slot(layer, SettingKey::ExtractionPageLimit) is Some
}

/// Whether `layer` says nothing about the open-ended tables: templates,
/// citation keys and lookup tables.
pub open spec fn no_tables(layer: Layer) -> bool {
    layer.templates is None && layer.citation_keys is None && layer.tables is None
}

/// The single-valued setting addressed by the dotted name `name`.
pub open spec fn setting_named(name: Seq<char>) -> Option<SettingKey> {
    if name == "bib.duplicates"@ {
        Some(SettingKey::BibDuplicates)
    } else if name == "bib.path"@ {
        Some(SettingKey::BibPath)
    } else if name == "bib.sidecars"@ {
        Some(SettingKey::BibSidecars)
    } else if name == "collection-root"@ {
        Some(SettingKey::CollectionRoot)
    } else if name == "extraction.page-limit"@ {
        Some(SettingKey::ExtractionPageLimit)
    } else if name == "ledger"@ {
        Some(SettingKey::Ledger)
    } else if name == "mailto"@ {
        Some(SettingKey::Mailto)
    } else if name == "network.cache"@ {
        Some(SettingKey::NetworkCache)
    } else if name == "network.concurrency"@ {
        Some(SettingKey::NetworkConcurrency)
    } else if name == "network.min-interval-ms"@ {
        Some(SettingKey::NetworkMinIntervalMs)
    } else if name == "rename.collision"@ {
        Some(SettingKey::RenameCollision)
    } else if name == "run-log"@ {
        Some(SettingKey::RunLog)
    } else if name == "sources"@ {
        Some(SettingKey::Sources)
    } else {
        None
    }
}

impl SettingKey {
    /// The single-valued setting addressed by the dotted name `name`.
    pub fn named(name: &str) -> (r: Option<SettingKey>)
        ensures
            r == setting_named(name@),
    {
        let keys = settings_in_order();
        let mut i: usize = 0;
        while i < keys.len()
            invariant
                keys@ == setting_keys(),
                i <= keys@.len(),
                forall|j: int| 0 <= j < i ==> key_text(#[trigger] keys@[j]) != name@,
            decreases keys@.len() - i,
        {
            if crate::text::same(keys[i].name(), name) {
                return Some(keys[i]);
            }
            i = i + 1;
        }
        assert(key_text(keys@[0]) != name@);
        assert(key_text(keys@[1]) != name@);
        assert(key_text(keys@[2]) != name@);
        assert(key_text(keys@[3]) != name@);
        assert(key_text(keys@[4]) != name@);
        assert(key_text(keys@[5]) != name@);
        assert(key_text(keys@[6]) != name@);
        assert(key_text(keys@[7]) != name@);
        assert(key_text(keys@[8]) != name@);
        assert(key_text(keys@[9]) != name@);
        assert(key_text(keys@[10]) != name@);
        assert(key_text(keys@[11]) != name@);
        assert(key_text(keys@[12]) != name@);
        None
    }
}

} // verus!
