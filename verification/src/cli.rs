//! What the user typed, as the library reads it.
//!
//! The command line is the highest configuration layer. [`Cli::settings`]
//! assembles a [`Settings`] from the invocation's option groups, and
//! [`flag_layers`] turns that into layers merged above everything else.

use vstd::prelude::*;
use crate::config::{
    BibLayer, ExtractionLayer, Layer, NetworkLayer, Origin, RenameLayer, SettingKey, SettingValue,
    no_tables, silent, slot,
};
use crate::event::Format;

verus! {

/// The `borax` command line.
#[derive(Debug, Clone, PartialEq, Eq)]
pub struct Cli {
    pub command: Command,
    /// Write one JSON object per line instead of prose.
    pub json: bool,
}

/// What a subcommand needs to turn a file into a record.
#[derive(Debug, Clone, PartialEq, Eq)]
pub struct ResolutionOptions {
    pub sources: Option<Vec<String>>,
    pub mailto: Option<String>,
    pub page_limit: Option<usize>,
    pub min_interval_ms: Option<u64>,
    pub cache: bool,
    pub no_cache: bool,
}

/// What a subcommand needs to give a file its new name.
#[derive(Debug, Clone, PartialEq, Eq)]
pub struct RenameOptions {
    pub collision: Option<String>,
}

/// What a subcommand needs to write bibliography output.
#[derive(Debug, Clone, PartialEq, Eq)]
pub struct BibliographyOptions {
    pub bib: Option<String>,
    pub duplicates: Option<String>,
    pub sidecars: bool,
    pub no_sidecars: bool,
}

/// What a subcommand needs to consult and update the collection's
/// ledger.
#[derive(Debug, Clone, PartialEq, Eq)]
pub struct AccountingOptions {
    pub ledger: bool,
    pub no_ledger: bool,
}

/// Whether a run keeps a log of its own event stream.
#[derive(Debug, Clone, PartialEq, Eq)]
pub struct RunLogOptions {
    pub run_log: bool,
    pub no_run_log: bool,
}

/// Which subcommand to run, what it needs beyond the settings, and the
/// settings it reads.
#[derive(Debug, Clone, PartialEq, Eq)]
pub enum Command {
    /// Resolve each file to a record and report what was found.
    Resolve {
        paths: Vec<String>,
        resolution: ResolutionOptions,
        concurrency: Option<usize>,
        run_log: RunLogOptions,
    },
    /// Rename each file after the record resolved for it.
    Rename {
        paths: Vec<String>,
        apply: bool,
        resolution: ResolutionOptions,
        rename: RenameOptions,
        bibliography: BibliographyOptions,
        accounting: AccountingOptions,
        run_log: RunLogOptions,
    },
    /// Write bibliography output for each file, renaming nothing.
    Bib {
        paths: Vec<String>,
        resolution: ResolutionOptions,
        bibliography: BibliographyOptions,
        run_log: RunLogOptions,
    },
    /// Print every setting, its value, and the layer it came from.
    Config {
        concurrency: Option<usize>,
        resolution: ResolutionOptions,
        rename: RenameOptions,
        bibliography: BibliographyOptions,
        accounting: AccountingOptions,
        run_log: RunLogOptions,
    },
    /// Report what the response cache holds, or empty it.
    Cache { clear: bool, run_log: RunLogOptions },
    /// Work on the collection's ledger.
    Ledger { action: LedgerAction },
}

/// What `borax ledger` is being asked to do.
#[derive(Debug, Clone, PartialEq, Eq)]
pub enum LedgerAction {
    /// Regenerate the ledger from the collection's files and sidecars.
    Rebuild { run_log: RunLogOptions },
}

/// The settings an invocation overrides, one field per setting. An
/// absent setting, or an unset flag, is one the command line was silent
/// about.
#[derive(Debug, Clone, PartialEq, Eq)]
pub struct Settings {
    pub sources: Option<Vec<String>>,
    pub mailto: Option<String>,
    pub collision: Option<String>,
    pub bib: Option<String>,
    pub duplicates: Option<String>,
    pub sidecars: bool,
    pub no_sidecars: bool,
    pub page_limit: Option<usize>,
    pub concurrency: Option<usize>,
    pub min_interval_ms: Option<u64>,
    pub cache: bool,
    pub no_cache: bool,
    pub ledger: bool,
    pub no_ledger: bool,
    pub run_log: bool,
    pub no_run_log: bool,
}

/// No resolution setting overridden.
pub open spec fn no_resolution() -> ResolutionOptions {
    ResolutionOptions { sources: None, mailto: None, page_limit: None, min_interval_ms: None, cache: false, no_cache: false }
}

/// No rename setting overridden.
pub open spec fn no_rename() -> RenameOptions {
    RenameOptions { collision: None }
}

/// No bibliography setting overridden.
pub open spec fn no_bibliography() -> BibliographyOptions {
    BibliographyOptions { bib: None, duplicates: None, sidecars: false, no_sidecars: false }
}

/// No accounting setting overridden.
pub open spec fn no_accounting() -> AccountingOptions {
    AccountingOptions { ledger: false, no_ledger: false }
}

/// No run-log setting overridden.
pub open spec fn no_run_log() -> RunLogOptions {
    RunLogOptions { run_log: false, no_run_log: false }
}

/// The strings an optional list holds, as a sequence.
pub open spec fn seqs(o: Option<Vec<String>>) -> Option<Seq<String>> {
    match o {
        Some(v) => Some(v@),
        None => None,
    }
}

/// Whether two settings say the same thing: every field equal, the
/// list of sources compared by its elements.
pub open spec fn agree(a: Settings, b: Settings) -> bool {
    &&& (Settings { sources: b.sources, ..a }) == b
    &&& seqs(a.sources) == seqs(b.sources)
}

/// The settings of an invocation that overrode nothing.
pub open spec fn unset() -> Settings {
    Settings {
        sources: None,
        mailto: None,
        collision: None,
        bib: None,
        duplicates: None,
        sidecars: false,
        no_sidecars: false,
        page_limit: None,
        concurrency: None,
        min_interval_ms: None,
        cache: false,
        no_cache: false,
        ledger: false,
        no_ledger: false,
        run_log: false,
        no_run_log: false,
    }
}

impl Settings {
    /// The settings of an invocation that overrode nothing.
    pub fn none() -> (s: Settings)
        ensures
            s == unset(),
    {
        Settings {
            sources: None,
            mailto: None,
            collision: None,
            bib: None,
            duplicates: None,
            sidecars: false,
            no_sidecars: false,
            page_limit: None,
            concurrency: None,
            min_interval_ms: None,
            cache: false,
            no_cache: false,
            ledger: false,
            no_ledger: false,
            run_log: false,
            no_run_log: false,
        }
    }
}

impl Default for Settings {
    fn default() -> (s: Settings)
        ensures
            s == unset(),
    {
        Settings::none()
    }
}

/// `settings` with the resolution group's flags copied in.
pub open spec fn with_resolution(settings: Settings, o: ResolutionOptions) -> Settings {
    Settings {
        sources: o.sources,
        mailto: o.mailto,
        page_limit: o.page_limit,
        min_interval_ms: o.min_interval_ms,
        cache: o.cache,
        no_cache: o.no_cache,
        ..settings
    }
}

/// `settings` with the rename group's flags copied in.
pub open spec fn with_rename(settings: Settings, o: RenameOptions) -> Settings {
    Settings { collision: o.collision, ..settings }
}

/// `settings` with the bibliography group's flags copied in.
pub open spec fn with_bibliography(settings: Settings, o: BibliographyOptions) -> Settings {
    Settings {
        bib: o.bib,
        duplicates: o.duplicates,
        sidecars: o.sidecars,
        no_sidecars: o.no_sidecars,
        ..settings
    }
}

/// `settings` with the accounting group's flags copied in.
pub open spec fn with_accounting(settings: Settings, o: AccountingOptions) -> Settings {
    Settings { ledger: o.ledger, no_ledger: o.no_ledger, ..settings }
}

/// `settings` with the run-log group's flags copied in.
pub open spec fn with_run_log(settings: Settings, o: RunLogOptions) -> Settings {
    Settings { run_log: o.run_log, no_run_log: o.no_run_log, ..settings }
}

pub fn copy_opt_strings(v: &Option<Vec<String>>) -> (r: Option<Vec<String>>)
    ensures
        seqs(r) == seqs(*v),
{
    match v {
        Some(v) => Some(crate::config::copy_strings(v)),
        None => None,
    }
}

pub fn copy_opt(v: &Option<String>) -> (r: Option<String>)
    ensures
        r == *v,
{
    match v {
        Some(v) => Some(v.clone()),
        None => None,
    }
}

impl ResolutionOptions {
    /// No resolution setting overridden.
    pub fn none() -> (o: ResolutionOptions)
        ensures
            o == no_resolution(),
    {
        ResolutionOptions {
            sources: None,
            mailto: None,
            page_limit: None,
            min_interval_ms: None,
            cache: false,
            no_cache: false,
        }
    }

    /// Copies this group's flags into the matching [`Settings`] fields.
    pub fn fill(&self, settings: &mut Settings)
        ensures
            agree(*final(settings), with_resolution(*old(settings), *self)),
    {
        settings.sources = copy_opt_strings(&self.sources);
        settings.mailto = copy_opt(&self.mailto);
        settings.page_limit = self.page_limit;
        settings.min_interval_ms = self.min_interval_ms;
        settings.cache = self.cache;
        settings.no_cache = self.no_cache;
    }
}

impl RenameOptions {
    /// No rename setting overridden.
    pub fn none() -> (o: RenameOptions)
        ensures
            o == no_rename(),
    {
        RenameOptions { collision: None }
    }

    /// Copies this group's flags into the matching [`Settings`] fields.
    pub fn fill(&self, settings: &mut Settings)
        ensures
            *final(settings) == with_rename(*old(settings), *self),
    {
        settings.collision = copy_opt(&self.collision);
    }
}

impl BibliographyOptions {
    /// No bibliography setting overridden.
    pub fn none() -> (o: BibliographyOptions)
        ensures
            o == no_bibliography(),
    {
        BibliographyOptions { bib: None, duplicates: None, sidecars: false, no_sidecars: false }
    }

    /// Copies this group's flags into the matching [`Settings`] fields.
    pub fn fill(&self, settings: &mut Settings)
        ensures
            *final(settings) == with_bibliography(*old(settings), *self),
    {
        settings.bib = copy_opt(&self.bib);
        settings.duplicates = copy_opt(&self.duplicates);
        settings.sidecars = self.sidecars;
        settings.no_sidecars = self.no_sidecars;
    }
}

impl AccountingOptions {
    /// No accounting setting overridden.
    pub fn none() -> (o: AccountingOptions)
        ensures
            o == no_accounting(),
    {
        AccountingOptions { ledger: false, no_ledger: false }
    }

    /// Copies this group's flags into the matching [`Settings`] fields.
    pub fn fill(&self, settings: &mut Settings)
        ensures
            *final(settings) == with_accounting(*old(settings), *self),
    {
        settings.ledger = self.ledger;
        settings.no_ledger = self.no_ledger;
    }
}

impl RunLogOptions {
    /// No run-log setting overridden.
    pub fn none() -> (o: RunLogOptions)
        ensures
            o == no_run_log(),
    {
        RunLogOptions { run_log: false, no_run_log: false }
    }

    /// Copies this group's flags into the matching [`Settings`] fields.
    pub fn fill(&self, settings: &mut Settings)
        ensures
            *final(settings) == with_run_log(*old(settings), *self),
    {
        settings.run_log = self.run_log;
        settings.no_run_log = self.no_run_log;
    }
}

/// The settings `command` overrides: only the option groups the
/// subcommand carries contribute, and every other setting stays unset.
pub open spec fn settings_spec(command: Command) -> Settings {
    match command {
        Command::Resolve { resolution, concurrency, run_log, .. } => with_run_log(
            Settings { concurrency: concurrency, ..with_resolution(unset(), resolution) },
            run_log,
        ),
        Command::Rename { resolution, rename, bibliography, accounting, run_log, .. } =>
            with_run_log(
            with_accounting(
                with_bibliography(with_rename(with_resolution(unset(), resolution), rename), bibliography),
                accounting,
            ),
            run_log,
        ),
        Command::Bib { resolution, bibliography, run_log, .. } => with_run_log(
            with_bibliography(with_resolution(unset(), resolution), bibliography),
            run_log,
        ),
        Command::Config { concurrency, resolution, rename, bibliography, accounting, run_log } =>
            with_run_log(
            with_accounting(
                with_bibliography(
                    with_rename(
                        with_resolution(Settings { concurrency: concurrency, ..unset() }, resolution),
                        rename,
                    ),
                    bibliography,
                ),
                accounting,
            ),
            run_log,
        ),
        Command::Cache { run_log, .. } => with_run_log(unset(), run_log),
        Command::Ledger { action: LedgerAction::Rebuild { run_log } } => with_run_log(
            unset(),
            run_log,
        ),
    }
}

impl Cli {
    /// Which rendering of the event stream this invocation asked for.
    pub fn format(&self) -> (f: Format)
        ensures
            f == (if self.json {
                Format::Json
            } else {
                Format::Human
            }),
    {
        if self.json {
            Format::Json
        } else {
            Format::Human
        }
    }

    /// The settings this invocation overrode.
    pub fn settings(&self) -> (s: Settings)
        ensures
            agree(s, settings_spec(self.command)),
    {
        let mut settings = Settings::none();
        match &self.command {
            Command::Resolve { resolution, concurrency, run_log, .. } => {
                resolution.fill(&mut settings);
                settings.concurrency = *concurrency;
                run_log.fill(&mut settings);
            },
            Command::Rename { resolution, rename, bibliography, accounting, run_log, .. } => {
                resolution.fill(&mut settings);
                rename.fill(&mut settings);
                bibliography.fill(&mut settings);
                accounting.fill(&mut settings);
                run_log.fill(&mut settings);
            },
            Command::Bib { resolution, bibliography, run_log, .. } => {
                resolution.fill(&mut settings);
                bibliography.fill(&mut settings);
                run_log.fill(&mut settings);
            },
            Command::Config { concurrency, resolution, rename, bibliography, accounting, run_log } => {
                settings.concurrency = *concurrency;
                resolution.fill(&mut settings);
                rename.fill(&mut settings);
                bibliography.fill(&mut settings);
                accounting.fill(&mut settings);
                run_log.fill(&mut settings);
            },
            Command::Cache { run_log, .. } => run_log.fill(&mut settings),
            Command::Ledger { action: LedgerAction::Rebuild { run_log } } => run_log.fill(
                &mut settings,
            ),
        }
        settings
    }
}

/// The subcommand's name, as the user typed it.
pub open spec fn command_name(command: Command) -> Seq<char> {
    match command {
        Command::Resolve { .. } => "resolve"@,
        Command::Rename { .. } => "rename"@,
        Command::Bib { .. } => "bib"@,
        Command::Config { .. } => "config"@,
        Command::Cache { .. } => "cache"@,
        Command::Ledger { .. } => "ledger rebuild"@,
    }
}

/// The files and directories the subcommand works on.
pub open spec fn command_paths(command: Command) -> Seq<String> {
    match command {
        Command::Resolve { paths, .. } => paths@,
        Command::Rename { paths, .. } => paths@,
        Command::Bib { paths, .. } => paths@,
        _ => Seq::empty(),
    }
}

impl Command {
    /// The `resolve` command over `paths`, with no setting overridden.
    pub fn resolve(paths: Vec<String>) -> (c: Command)
        ensures
            c == (Command::Resolve {
                paths,
                resolution: no_resolution(),
                concurrency: None,
                run_log: no_run_log(),
            }),
    {
        Command::Resolve {
            paths,
            resolution: ResolutionOptions::none(),
            concurrency: None,
            run_log: RunLogOptions::none(),
        }
    }

    /// The `rename` command over `paths`, moving the files when `apply`.
    pub fn rename(paths: Vec<String>, apply: bool) -> (c: Command)
        ensures
            c == (Command::Rename {
                paths,
                apply,
                resolution: no_resolution(),
                rename: no_rename(),
                bibliography: no_bibliography(),
                accounting: no_accounting(),
                run_log: no_run_log(),
            }),
    {
        Command::Rename {
            paths,
            apply,
            resolution: ResolutionOptions::none(),
            rename: RenameOptions::none(),
            bibliography: BibliographyOptions::none(),
            accounting: AccountingOptions::none(),
            run_log: RunLogOptions::none(),
        }
    }

    /// The `bib` command over `paths`, with no setting overridden.
    pub fn bib(paths: Vec<String>) -> (c: Command)
        ensures
            c == (Command::Bib {
                paths,
                resolution: no_resolution(),
                bibliography: no_bibliography(),
                run_log: no_run_log(),
            }),
    {
        Command::Bib {
            paths,
            resolution: ResolutionOptions::none(),
            bibliography: BibliographyOptions::none(),
            run_log: RunLogOptions::none(),
        }
    }

    /// The `config` command, with no setting overridden.
    pub fn config() -> (c: Command)
        ensures
            c == (Command::Config {
                concurrency: None,
                resolution: no_resolution(),
                rename: no_rename(),
                bibliography: no_bibliography(),
                accounting: no_accounting(),
                run_log: no_run_log(),
            }),
    {
        Command::Config {
            concurrency: None,
            resolution: ResolutionOptions::none(),
            rename: RenameOptions::none(),
            bibliography: BibliographyOptions::none(),
            accounting: AccountingOptions::none(),
            run_log: RunLogOptions::none(),
        }
    }

    /// The `cache` command, emptying the cache when `clear`.
    pub fn cache(clear: bool) -> (c: Command)
        ensures
            c == (Command::Cache { clear, run_log: no_run_log() }),
    {
        Command::Cache { clear, run_log: RunLogOptions::none() }
    }

    /// The subcommand's name, as the user typed it. A subcommand with an
    /// action of its own is named by both words.
    pub fn name(&self) -> (r: &'static str)
        ensures
            r@ == command_name(*self),
    {
        match self {
            Command::Resolve { .. } => "resolve",
            Command::Rename { .. } => "rename",
            Command::Bib { .. } => "bib",
            Command::Config { .. } => "config",
            Command::Cache { .. } => "cache",
            Command::Ledger { .. } => "ledger rebuild",
        }
    }

    /// The files and directories the subcommand works on, empty for the
    /// subcommands that take none.
    pub fn paths(&self) -> (r: Vec<String>)
        ensures
            r@ == command_paths(*self),
    {
        match self {
            Command::Resolve { paths, .. } => crate::config::copy_strings(paths),
            Command::Rename { paths, .. } => crate::config::copy_strings(paths),
            Command::Bib { paths, .. } => crate::config::copy_strings(paths),
            _ => Vec::new(),
        }
    }
}

impl LedgerAction {
    /// The `ledger rebuild` action, with no setting overridden.
    pub fn rebuild() -> (a: LedgerAction)
        ensures
            a == (LedgerAction::Rebuild { run_log: no_run_log() }),
    {
        LedgerAction::Rebuild { run_log: RunLogOptions::none() }
    }
}

/// One flag an invocation gave: its name, the setting it sets, and the
/// value it sets it to.
pub type Flagged = (Seq<char>, SettingKey, SettingValue);

/// `acc`, with `entry` appended when `given`.
pub open spec fn then(acc: Seq<Flagged>, given: bool, entry: Flagged) -> Seq<Flagged> {
    if given {
        acc.push(entry)
    } else {
        acc
    }
}

/// An optional string setting as a flag, when it was given.
pub open spec fn then_text(
    acc: Seq<Flagged>,
    o: Option<String>,
    name: Seq<char>,
    key: SettingKey,
) -> Seq<Flagged> {
    match o {
        Some(v) => acc.push((name, key, SettingValue::Text(v@))),
        None => acc,
    }
}

/// An optional count setting as a flag, when it was given.
pub open spec fn then_count(acc: Seq<Flagged>, o: Option<nat>, name: Seq<char>, key: SettingKey) -> Seq<
    Flagged,
> {
    match o {
        Some(v) => acc.push((name, key, SettingValue::Count(v))),
        None => acc,
    }
}

/// A `usize` setting as a count.
pub open spec fn nat_of(o: Option<usize>) -> Option<nat> {
    match o {
        Some(v) => Some(v as nat),
        None => None,
    }
}

/// A `u64` setting as a count.
pub open spec fn nat_of_u64(o: Option<u64>) -> Option<nat> {
    match o {
        Some(v) => Some(v as nat),
        None => None,
    }
}

/// The first of the flags `s` gives: sources, mailto, collision, bib.
pub open spec fn flags_first(s: Settings) -> Seq<Flagged> {
    let a = match s.sources {
        Some(v) => seq![("sources"@, SettingKey::Sources, SettingValue::List(v@))],
        None => Seq::empty(),
    };
    let a = then_text(a, s.mailto, "mailto"@, SettingKey::Mailto);
    let a = then_text(a, s.collision, "collision"@, SettingKey::RenameCollision);
    then_text(a, s.bib, "bib"@, SettingKey::BibPath)
}

/// `a` followed by the bibliography and extraction flags `s` gives.
pub open spec fn flags_second(s: Settings, a: Seq<Flagged>) -> Seq<Flagged> {
    let a = then_text(a, s.duplicates, "duplicates"@, SettingKey::BibDuplicates);
    let a = then(a, s.sidecars, ("sidecars"@, SettingKey::BibSidecars, SettingValue::Flag(true)));
    let a = then(
        a,
        s.no_sidecars,
        ("no-sidecars"@, SettingKey::BibSidecars, SettingValue::Flag(false)),
    );
    then_count(a, nat_of(s.page_limit), "page-limit"@, SettingKey::ExtractionPageLimit)
}

/// `a` followed by the network flags `s` gives.
pub open spec fn flags_third(s: Settings, a: Seq<Flagged>) -> Seq<Flagged> {
    let a = then_count(a, nat_of(s.concurrency), "concurrency"@, SettingKey::NetworkConcurrency);
    let a = then_count(
        a,
        nat_of_u64(s.min_interval_ms),
        "min-interval-ms"@,
        SettingKey::NetworkMinIntervalMs,
    );
    let a = then(a, s.cache, ("cache"@, SettingKey::NetworkCache, SettingValue::Flag(true)));
    then(a, s.no_cache, ("no-cache"@, SettingKey::NetworkCache, SettingValue::Flag(false)))
}

/// `a` followed by the ledger and run-log flags `s` gives.
pub open spec fn flags_fourth(s: Settings, a: Seq<Flagged>) -> Seq<Flagged> {
    let a = then(a, s.ledger, ("ledger"@, SettingKey::Ledger, SettingValue::Flag(true)));
    let a = then(a, s.no_ledger, ("no-ledger"@, SettingKey::Ledger, SettingValue::Flag(false)));
    let a = then(a, s.run_log, ("run-log"@, SettingKey::RunLog, SettingValue::Flag(true)));
    then(a, s.no_run_log, ("no-run-log"@, SettingKey::RunLog, SettingValue::Flag(false)))
}

/// The flags `settings` gives, in the order the fields are declared.
pub open spec fn flags_given(s: Settings) -> Seq<Flagged> {
    flags_fourth(s, flags_third(s, flags_second(s, flags_first(s))))
}

/// Whether `layer` sets `key` to `value` and nothing else.
pub open spec fn sets_only(layer: Layer, key: SettingKey, value: SettingValue) -> bool {
    &&& no_tables(layer)
    &&& crate::config::tidy(layer)
    &&& forall|k: SettingKey| slot(layer, k) == (if k == key {
        Some(value)
    } else {
        None
    })
}

/// Whether the flag layer `pair` is the one `entry` describes: its
/// origin names the flag, and its layer sets the flag's setting and
/// nothing else.
pub open spec fn corresponds(pair: (Origin, Layer), entry: Flagged) -> bool {
    &&& pair.0 matches Origin::Flag(name) && name@ == entry.0
    &&& sets_only(pair.1, entry.1, entry.2)
}

/// Whether `layers` are, one for one, the flags `entries` describe.
pub open spec fn all_correspond(layers: Seq<(Origin, Layer)>, entries: Seq<Flagged>) -> bool {
    &&& layers.len() == entries.len()
    &&& forall|i: int| 0 <= i < layers.len() ==> corresponds(#[trigger] layers[i], entries[i])
}

fn push_flag(
    layers: &mut Vec<(Origin, Layer)>,
    name: &str,
    layer: Layer,
    Ghost(entries): Ghost<Seq<Flagged>>,
    Ghost(entry): Ghost<Flagged>,
)
    requires
        all_correspond(old(layers)@, entries),
        name@ == entry.0,
        sets_only(layer, entry.1, entry.2),
    ensures
        all_correspond(final(layers)@, entries.push(entry)),
{
    layers.push((Origin::Flag(String::from_str(name)), layer));
    assert(corresponds(layers@[layers@.len() - 1], entry));
}

/// A layer carrying `bib` and nothing else.
pub fn bib_layer(bib: BibLayer) -> (l: Layer)
    ensures
        l == (Layer { bib: Some(bib), ..silent() }),
{
    Layer { bib: Some(bib), ..Layer::empty() }
}

/// A layer carrying `network` and nothing else.
pub fn network_layer(network: NetworkLayer) -> (l: Layer)
    ensures
        l == (Layer { network: Some(network), ..silent() }),
{
    Layer { network: Some(network), ..Layer::empty() }
}

fn first_flags(s: &Settings, layers: &mut Vec<(Origin, Layer)>)
    requires
        old(layers)@.len() == 0,
    ensures
        all_correspond(final(layers)@, flags_first(*s)),
{
    let ghost a: Seq<Flagged> = Seq::empty();
    if let Some(sources) = &s.sources {
        let ghost entry = ("sources"@, SettingKey::Sources, SettingValue::List(sources@));
        let v = crate::config::copy_strings(sources);
        push_flag(layers, "sources", Layer { sources: Some(v), ..Layer::empty() }, Ghost(a), Ghost(entry));
        proof { a = a.push(entry); }
    }
    assert(a =~= match s.sources {
        Some(v) => seq![("sources"@, SettingKey::Sources, SettingValue::List(v@))],
        None => Seq::<Flagged>::empty(),
    });
    if let Some(mailto) = &s.mailto {
        let ghost entry = ("mailto"@, SettingKey::Mailto, SettingValue::Text(mailto@));
        push_flag(layers, "mailto", Layer { mailto: Some(mailto.clone()), ..Layer::empty() }, Ghost(a), Ghost(entry));
        proof { a = a.push(entry); }
    }
    if let Some(collision) = &s.collision {
        let ghost entry = ("collision"@, SettingKey::RenameCollision, SettingValue::Text(collision@));
        let l = Layer { rename: Some(RenameLayer { collision: Some(collision.clone()) }), ..Layer::empty() };
        push_flag(layers, "collision", l, Ghost(a), Ghost(entry));
        proof { a = a.push(entry); }
    }
    if let Some(path) = &s.bib {
        let ghost entry = ("bib"@, SettingKey::BibPath, SettingValue::Text(path@));
        let l = bib_layer(BibLayer { path: Some(path.clone()), duplicates: None, sidecars: None });
        push_flag(layers, "bib", l, Ghost(a), Ghost(entry));
        proof { a = a.push(entry); }
    }
}

fn second_flags(s: &Settings, layers: &mut Vec<(Origin, Layer)>, Ghost(start): Ghost<Seq<Flagged>>)
    requires
        all_correspond(old(layers)@, start),
    ensures
        all_correspond(final(layers)@, flags_second(*s, start)),
{
    let ghost a: Seq<Flagged> = start;
    if let Some(duplicates) = &s.duplicates {
        let ghost entry = ("duplicates"@, SettingKey::BibDuplicates, SettingValue::Text(duplicates@));
        let l = bib_layer(BibLayer { path: None, duplicates: Some(duplicates.clone()), sidecars: None });
        push_flag(layers, "duplicates", l, Ghost(a), Ghost(entry));
        proof { a = a.push(entry); }
    }
    if s.sidecars {
        let ghost entry = ("sidecars"@, SettingKey::BibSidecars, SettingValue::Flag(true));
        let l = bib_layer(BibLayer { path: None, duplicates: None, sidecars: Some(true) });
        push_flag(layers, "sidecars", l, Ghost(a), Ghost(entry));
        proof { a = a.push(entry); }
    }
    if s.no_sidecars {
        let ghost entry = ("no-sidecars"@, SettingKey::BibSidecars, SettingValue::Flag(false));
        let l = bib_layer(BibLayer { path: None, duplicates: None, sidecars: Some(false) });
        push_flag(layers, "no-sidecars", l, Ghost(a), Ghost(entry));
        proof { a = a.push(entry); }
    }
    if let Some(page_limit) = s.page_limit {
        let ghost entry = ("page-limit"@, SettingKey::ExtractionPageLimit, SettingValue::Count(page_limit as nat));
        let l = Layer { extraction: Some(ExtractionLayer { page_limit: Some(page_limit) }), ..Layer::empty() };
        push_flag(layers, "page-limit", l, Ghost(a), Ghost(entry));
        proof { a = a.push(entry); }
    }
}

fn third_flags(s: &Settings, layers: &mut Vec<(Origin, Layer)>, Ghost(start): Ghost<Seq<Flagged>>)
    requires
        all_correspond(old(layers)@, start),
    ensures
        all_correspond(final(layers)@, flags_third(*s, start)),
{
    let ghost a: Seq<Flagged> = start;
    if let Some(concurrency) = s.concurrency {
        let ghost entry = ("concurrency"@, SettingKey::NetworkConcurrency, SettingValue::Count(concurrency as nat));
        let l = network_layer(NetworkLayer { concurrency: Some(concurrency), min_interval_ms: None, cache: None });
        push_flag(layers, "concurrency", l, Ghost(a), Ghost(entry));
        proof { a = a.push(entry); }
    }
    if let Some(min_interval_ms) = s.min_interval_ms {
        let ghost entry = ("min-interval-ms"@, SettingKey::NetworkMinIntervalMs, SettingValue::Count(min_interval_ms as nat));
        let l = network_layer(NetworkLayer { concurrency: None, min_interval_ms: Some(min_interval_ms), cache: None });
        push_flag(layers, "min-interval-ms", l, Ghost(a), Ghost(entry));
        proof { a = a.push(entry); }
    }
    if s.cache {
        let ghost entry = ("cache"@, SettingKey::NetworkCache, SettingValue::Flag(true));
        let l = network_layer(NetworkLayer { concurrency: None, min_interval_ms: None, cache: Some(true) });
        push_flag(layers, "cache", l, Ghost(a), Ghost(entry));
        proof { a = a.push(entry); }
    }
    if s.no_cache {
        let ghost entry = ("no-cache"@, SettingKey::NetworkCache, SettingValue::Flag(false));
        let l = network_layer(NetworkLayer { concurrency: None, min_interval_ms: None, cache: Some(false) });
        push_flag(layers, "no-cache", l, Ghost(a), Ghost(entry));
        proof { a = a.push(entry); }
    }
}

fn fourth_flags(s: &Settings, layers: &mut Vec<(Origin, Layer)>, Ghost(start): Ghost<Seq<Flagged>>)
    requires
        all_correspond(old(layers)@, start),
    ensures
        all_correspond(final(layers)@, flags_fourth(*s, start)),
{
    let ghost a: Seq<Flagged> = start;
    if s.ledger {
        let ghost entry = ("ledger"@, SettingKey::Ledger, SettingValue::Flag(true));
        push_flag(layers, "ledger", Layer { ledger: Some(true), ..Layer::empty() }, Ghost(a), Ghost(entry));
        proof { a = a.push(entry); }
    }
    if s.no_ledger {
        let ghost entry = ("no-ledger"@, SettingKey::Ledger, SettingValue::Flag(false));
        push_flag(layers, "no-ledger", Layer { ledger: Some(false), ..Layer::empty() }, Ghost(a), Ghost(entry));
        proof { a = a.push(entry); }
    }
    if s.run_log {
        let ghost entry = ("run-log"@, SettingKey::RunLog, SettingValue::Flag(true));
        push_flag(layers, "run-log", Layer { run_log: Some(true), ..Layer::empty() }, Ghost(a), Ghost(entry));
        proof { a = a.push(entry); }
    }
    if s.no_run_log {
        let ghost entry = ("no-run-log"@, SettingKey::RunLog, SettingValue::Flag(false));
        push_flag(layers, "no-run-log", Layer { run_log: Some(false), ..Layer::empty() }, Ghost(a), Ghost(entry));
        proof { a = a.push(entry); }
    }
}

/// `settings` as configuration layers, one per flag actually given, in
/// the order the fields are declared. Each layer's origin names its flag
/// and the layer sets that flag's setting and nothing else; a flag left
/// unsaid produces no layer.
pub fn flag_layers(settings: &Settings) -> (layers: Vec<(Origin, Layer)>)
    ensures
        all_correspond(layers@, flags_given(*settings)),
{
    let mut layers: Vec<(Origin, Layer)> = Vec::new();
    first_flags(settings, &mut layers);
    second_flags(settings, &mut layers, Ghost(flags_first(*settings)));
    third_flags(settings, &mut layers, Ghost(flags_second(*settings, flags_first(*settings))));
    fourth_flags(
        settings,
        &mut layers,
        Ghost(flags_third(*settings, flags_second(*settings, flags_first(*settings)))),
    );
    layers
}


} // verus!

verus! {

/// The position of `key` in the order the flag fields are declared.
pub open spec fn flag_rank(key: SettingKey) -> int {
    match key {
        SettingKey::Sources => 0,
        SettingKey::Mailto => 1,
        SettingKey::RenameCollision => 2,
        SettingKey::BibPath => 3,
        SettingKey::BibDuplicates => 4,
        SettingKey::BibSidecars => 5,
        SettingKey::ExtractionPageLimit => 6,
        SettingKey::NetworkConcurrency => 7,
        SettingKey::NetworkMinIntervalMs => 8,
        SettingKey::NetworkCache => 9,
        SettingKey::Ledger => 10,
        SettingKey::RunLog => 11,
        SettingKey::CollectionRoot => 12,
    }
}

/// Whether the settings of `flags` come in strictly increasing rank.
pub open spec fn increasing(flags: Seq<Flagged>) -> bool {
    forall|i: int, j: int| 0 <= i < j < flags.len() ==> flag_rank(flags[i].1) < flag_rank(flags[j].1)
}

/// Whether every setting in `flags` ranks below `r`.
pub open spec fn below(flags: Seq<Flagged>, r: int) -> bool {
    forall|i: int| 0 <= i < flags.len() ==> flag_rank(flags[i].1) < r
}

proof fn lemma_push_increasing(a: Seq<Flagged>, e: Flagged)
    requires
        increasing(a),
        below(a, flag_rank(e.1)),
    ensures
        increasing(a.push(e)),
        below(a.push(e), flag_rank(e.1) + 1),
{
}

proof fn lemma_then(a: Seq<Flagged>, given: bool, e: Flagged)
    requires
        increasing(a),
        below(a, flag_rank(e.1)),
    ensures
        increasing(then(a, given, e)),
        below(then(a, given, e), flag_rank(e.1) + 1),
{
    if given {
        lemma_push_increasing(a, e);
    }
}

proof fn lemma_then_text(a: Seq<Flagged>, o: Option<String>, name: Seq<char>, key: SettingKey)
    requires
        increasing(a),
        below(a, flag_rank(key)),
    ensures
        increasing(then_text(a, o, name, key)),
        below(then_text(a, o, name, key), flag_rank(key) + 1),
{
    if let Some(v) = o {
        lemma_push_increasing(a, (name, key, SettingValue::Text(v@)));
    }
}

proof fn lemma_then_count(a: Seq<Flagged>, o: Option<nat>, name: Seq<char>, key: SettingKey)
    requires
        increasing(a),
        below(a, flag_rank(key)),
    ensures
        increasing(then_count(a, o, name, key)),
        below(then_count(a, o, name, key), flag_rank(key) + 1),
{
    if let Some(v) = o {
        lemma_push_increasing(a, (name, key, SettingValue::Count(v)));
    }
}

/// A pair of flags of which at most one is given adds at most one entry
/// of its rank.
proof fn lemma_pair(a: Seq<Flagged>, first: bool, second: bool, e1: Flagged, e2: Flagged)
    requires
        increasing(a),
        below(a, flag_rank(e1.1)),
        e1.1 == e2.1,
        !(first && second),
    ensures
        increasing(then(then(a, first, e1), second, e2)),
        below(then(then(a, first, e1), second, e2), flag_rank(e1.1) + 1),
{
    lemma_then(a, first, e1);
    if second {
        lemma_then(a, second, e2);
    }
}

/// 1 when `given`, 0 otherwise.
pub open spec fn one_if(given: bool) -> int {
    if given {
        1
    } else {
        0
    }
}

/// How many flags `s` gives: each setting given a value, and each
/// switch turned on.
pub open spec fn given_count(s: Settings) -> int {
    one_if(s.sources is Some) + one_if(s.mailto is Some) + one_if(s.collision is Some) + one_if(
        s.bib is Some,
    ) + one_if(s.duplicates is Some) + one_if(s.sidecars) + one_if(s.no_sidecars) + one_if(
        s.page_limit is Some,
    ) + one_if(s.concurrency is Some) + one_if(s.min_interval_ms is Some) + one_if(s.cache)
        + one_if(s.no_cache) + one_if(s.ledger) + one_if(s.no_ledger) + one_if(s.run_log) + one_if(
        s.no_run_log,
    )
}

proof fn lemma_then_len(a: Seq<Flagged>, given: bool, e: Flagged)
    ensures
        then(a, given, e).len() == a.len() + one_if(given),
{
}

proof fn lemma_then_text_len(a: Seq<Flagged>, o: Option<String>, name: Seq<char>, key: SettingKey)
    ensures
        then_text(a, o, name, key).len() == a.len() + one_if(o is Some),
{
}

proof fn lemma_then_count_len(a: Seq<Flagged>, o: Option<nat>, name: Seq<char>, key: SettingKey)
    ensures
        then_count(a, o, name, key).len() == a.len() + one_if(o is Some),
{
}

proof fn lemma_first_len(s: Settings)
    ensures
        flags_first(s).len() == one_if(s.sources is Some) + one_if(s.mailto is Some) + one_if(
            s.collision is Some,
        ) + one_if(s.bib is Some),
{
    let a0 = match s.sources {
        Some(v) => seq![("sources"@, SettingKey::Sources, SettingValue::List(v@))],
        None => Seq::<Flagged>::empty(),
    };
    let a1 = then_text(a0, s.mailto, "mailto"@, SettingKey::Mailto);
    let a2 = then_text(a1, s.collision, "collision"@, SettingKey::RenameCollision);
    lemma_then_text_len(a0, s.mailto, "mailto"@, SettingKey::Mailto);
    lemma_then_text_len(a1, s.collision, "collision"@, SettingKey::RenameCollision);
    lemma_then_text_len(a2, s.bib, "bib"@, SettingKey::BibPath);
}

proof fn lemma_second_len(s: Settings, a: Seq<Flagged>)
    ensures
        flags_second(s, a).len() == a.len() + one_if(s.duplicates is Some) + one_if(s.sidecars)
            + one_if(s.no_sidecars) + one_if(s.page_limit is Some),
{
    let b1 = then_text(a, s.duplicates, "duplicates"@, SettingKey::BibDuplicates);
    let b2 = then(b1, s.sidecars, ("sidecars"@, SettingKey::BibSidecars, SettingValue::Flag(true)));
    let b3 = then(
        b2,
        s.no_sidecars,
        ("no-sidecars"@, SettingKey::BibSidecars, SettingValue::Flag(false)),
    );
    lemma_then_text_len(a, s.duplicates, "duplicates"@, SettingKey::BibDuplicates);
    lemma_then_len(b1, s.sidecars, ("sidecars"@, SettingKey::BibSidecars, SettingValue::Flag(true)));
    lemma_then_len(
        b2,
        s.no_sidecars,
        ("no-sidecars"@, SettingKey::BibSidecars, SettingValue::Flag(false)),
    );
    lemma_then_count_len(b3, nat_of(s.page_limit), "page-limit"@, SettingKey::ExtractionPageLimit);
}

proof fn lemma_third_len(s: Settings, a: Seq<Flagged>)
    ensures
        flags_third(s, a).len() == a.len() + one_if(s.concurrency is Some) + one_if(
            s.min_interval_ms is Some,
        ) + one_if(s.cache) + one_if(s.no_cache),
{
    let c1 = then_count(a, nat_of(s.concurrency), "concurrency"@, SettingKey::NetworkConcurrency);
    let c2 = then_count(
        c1,
        nat_of_u64(s.min_interval_ms),
        "min-interval-ms"@,
        SettingKey::NetworkMinIntervalMs,
    );
    let c3 = then(c2, s.cache, ("cache"@, SettingKey::NetworkCache, SettingValue::Flag(true)));
    lemma_then_count_len(a, nat_of(s.concurrency), "concurrency"@, SettingKey::NetworkConcurrency);
    lemma_then_count_len(
        c1,
        nat_of_u64(s.min_interval_ms),
        "min-interval-ms"@,
        SettingKey::NetworkMinIntervalMs,
    );
    lemma_then_len(c2, s.cache, ("cache"@, SettingKey::NetworkCache, SettingValue::Flag(true)));
    lemma_then_len(c3, s.no_cache, ("no-cache"@, SettingKey::NetworkCache, SettingValue::Flag(false)));
}

proof fn lemma_fourth_len(s: Settings, a: Seq<Flagged>)
    ensures
        flags_fourth(s, a).len() == a.len() + one_if(s.ledger) + one_if(s.no_ledger) + one_if(
            s.run_log,
        ) + one_if(s.no_run_log),
{
    let d1 = then(a, s.ledger, ("ledger"@, SettingKey::Ledger, SettingValue::Flag(true)));
    let d2 = then(d1, s.no_ledger, ("no-ledger"@, SettingKey::Ledger, SettingValue::Flag(false)));
    let d3 = then(d2, s.run_log, ("run-log"@, SettingKey::RunLog, SettingValue::Flag(true)));
    lemma_then_len(a, s.ledger, ("ledger"@, SettingKey::Ledger, SettingValue::Flag(true)));
    lemma_then_len(d1, s.no_ledger, ("no-ledger"@, SettingKey::Ledger, SettingValue::Flag(false)));
    lemma_then_len(d2, s.run_log, ("run-log"@, SettingKey::RunLog, SettingValue::Flag(true)));
    lemma_then_len(d3, s.no_run_log, ("no-run-log"@, SettingKey::RunLog, SettingValue::Flag(false)));
}

/// There is one flag layer for each flag given: as many layers as
/// `settings` has values set and switches on.
pub proof fn one_layer_per_flag(s: Settings)
    ensures
        flags_given(s).len() == given_count(s),
{
    let a = flags_first(s);
    let b = flags_second(s, a);
    let c = flags_third(s, b);
    lemma_first_len(s);
    lemma_second_len(s, a);
    lemma_third_len(s, b);
    lemma_fourth_len(s, c);
}

/// When no flag is given together with its opposite, the flag layers
/// set pairwise different settings, so no flag layer overrides another
/// and the order they are stacked in does not matter.
pub proof fn flag_layers_set_different_settings(s: Settings)
    requires
        !(s.sidecars && s.no_sidecars),
        !(s.cache && s.no_cache),
        !(s.ledger && s.no_ledger),
        !(s.run_log && s.no_run_log),
    ensures
        forall|i: int, j: int|
            0 <= i < j < flags_given(s).len() ==> #[trigger] flags_given(s)[i].1
                != #[trigger] flags_given(s)[j].1,
{
    let a0 = match s.sources {
        Some(v) => seq![("sources"@, SettingKey::Sources, SettingValue::List(v@))],
        None => Seq::<Flagged>::empty(),
    };
    assert(increasing(a0) && below(a0, 1));
    lemma_then_text(a0, s.mailto, "mailto"@, SettingKey::Mailto);
    let a1 = then_text(a0, s.mailto, "mailto"@, SettingKey::Mailto);
    lemma_then_text(a1, s.collision, "collision"@, SettingKey::RenameCollision);
    let a2 = then_text(a1, s.collision, "collision"@, SettingKey::RenameCollision);
    lemma_then_text(a2, s.bib, "bib"@, SettingKey::BibPath);
    let a3 = flags_first(s);
    lemma_then_text(a3, s.duplicates, "duplicates"@, SettingKey::BibDuplicates);
    let a4 = then_text(a3, s.duplicates, "duplicates"@, SettingKey::BibDuplicates);
    lemma_pair(
        a4,
        s.sidecars,
        s.no_sidecars,
        ("sidecars"@, SettingKey::BibSidecars, SettingValue::Flag(true)),
        ("no-sidecars"@, SettingKey::BibSidecars, SettingValue::Flag(false)),
    );
    let a5 = then(
        then(a4, s.sidecars, ("sidecars"@, SettingKey::BibSidecars, SettingValue::Flag(true))),
        s.no_sidecars,
        ("no-sidecars"@, SettingKey::BibSidecars, SettingValue::Flag(false)),
    );
    lemma_then_count(a5, nat_of(s.page_limit), "page-limit"@, SettingKey::ExtractionPageLimit);
    let a6 = flags_second(s, a3);
    lemma_then_count(a6, nat_of(s.concurrency), "concurrency"@, SettingKey::NetworkConcurrency);
    let a7 = then_count(a6, nat_of(s.concurrency), "concurrency"@, SettingKey::NetworkConcurrency);
    lemma_then_count(
        a7,
        nat_of_u64(s.min_interval_ms),
        "min-interval-ms"@,
        SettingKey::NetworkMinIntervalMs,
    );
    let a8 = then_count(
        a7,
        nat_of_u64(s.min_interval_ms),
        "min-interval-ms"@,
        SettingKey::NetworkMinIntervalMs,
    );
    lemma_pair(
        a8,
        s.cache,
        s.no_cache,
        ("cache"@, SettingKey::NetworkCache, SettingValue::Flag(true)),
        ("no-cache"@, SettingKey::NetworkCache, SettingValue::Flag(false)),
    );
    let a9 = flags_third(s, a6);
    lemma_pair(
        a9,
        s.ledger,
        s.no_ledger,
        ("ledger"@, SettingKey::Ledger, SettingValue::Flag(true)),
        ("no-ledger"@, SettingKey::Ledger, SettingValue::Flag(false)),
    );
    let a10 = then(
        then(a9, s.ledger, ("ledger"@, SettingKey::Ledger, SettingValue::Flag(true))),
        s.no_ledger,
        ("no-ledger"@, SettingKey::Ledger, SettingValue::Flag(false)),
    );
    lemma_pair(
        a10,
        s.run_log,
        s.no_run_log,
        ("run-log"@, SettingKey::RunLog, SettingValue::Flag(true)),
        ("no-run-log"@, SettingKey::RunLog, SettingValue::Flag(false)),
    );
    let all = flags_given(s);
    assert(increasing(all));
}

} // verus!
