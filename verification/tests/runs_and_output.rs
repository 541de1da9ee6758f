use std::cell::RefCell;

use borax::bib::{
    citation_key, merge_master, sidecar_path, write_bib, write_sidecar, BibConfig, Keyed,
    MergeOutcome,
};
use borax::cache::{clear, cleared_event, inspect, status_event, CacheStats, Walk};
use borax::cli::{Cli, Command, Settings};
use borax::config::{DuplicatePolicy, Layer, Origin};
use borax::event::{Attempt, Counts, Event, Level, SkipReason};
use borax::record::{EntryType, Record};
use borax::resolution::ConfigError;
use borax::run::{
    admission, applying, by_directory, cache_failure, cites, config_for, current_path,
    env_layers, inputs, is_present, log_failure, start_directory, templates, unreplayable,
    Configs,
};
use borax::session::{outcome_for, Outcome};

fn text(s: &str) -> String {
    s.to_string()
}

fn strings(items: &[&str]) -> Vec<String> {
    items.iter().map(|s| text(s)).collect()
}

fn record() -> Record {
    Record {
        doi: Some(text("10.1021/jacs.4c01234")),
        arxiv: None,
        pmid: None,
        isbn: None,
        title: Some(text("An Awesome Paper")),
        entry_type: EntryType::Article,
    }
}

#[test]
fn human_lines_read_as_the_readme_shows() {
    let resolved = Event::Resolved {
        path: text("papers/1-s2.0-S0009261421001234.pdf"),
        identifier: text("10.1021/jacs.4c01234"),
        record: record(),
        source: text("crossref"),
        tier: None,
        cached: false,
    };
    assert_eq!(
        borax::event::human_line(&resolved).as_deref(),
        Some("papers/1-s2.0-S0009261421001234.pdf: resolved 10.1021/jacs.4c01234 via crossref")
    );
    let planned = Event::Planned {
        path: text("papers/1-s2.0-S0009261421001234.pdf"),
        target: text("papers/smith2024_AwesomePaperBorax.pdf"),
    };
    assert_eq!(
        borax::event::human_line(&planned).as_deref(),
        Some("papers/1-s2.0-S0009261421001234.pdf: would rename to papers/smith2024_AwesomePaperBorax.pdf")
    );
    let skipped = Event::Skipped { path: text("papers/scan003.pdf"), reason: SkipReason::NoIdentifier };
    assert_eq!(
        borax::event::human_line(&skipped).as_deref(),
        Some("papers/scan003.pdf: skipped, no identifier found")
    );
    let entry = Event::BibEntry {
        path: text("papers/smith2024_AwesomePaperBorax.pdf"),
        key: text("smith2024"),
        outcome: text("added"),
    };
    assert_eq!(
        borax::event::human_line(&entry).as_deref(),
        Some("papers/smith2024_AwesomePaperBorax.pdf: bibliography entry smith2024 added")
    );
    let finished = Event::RunFinished {
        counts: Counts { resolved: 1, renamed: 0, skipped: 1, unmatched: 0 },
    };
    assert_eq!(
        borax::event::human_line(&finished).as_deref(),
        Some("1 resolved, 0 renamed, 1 skipped")
    );
    let started = Event::RunStarted {
        command: text("rename"),
        version: text("0.1.0"),
        applying: false,
        tables: Vec::new(),
    };
    assert_eq!(borax::event::human_line(&started), None);
}

#[test]
fn unresolvable_files_list_every_attempt() {
    let reason = SkipReason::Unresolvable {
        attempts: vec![
            Attempt { source: text("crossref"), error: text("not found") },
            Attempt { source: text("openalex"), error: text("timeout") },
        ],
    };
    assert_eq!(
        borax::event::skipped_because(&reason),
        "no source had a record (crossref: not found; openalex: timeout)"
    );
}

#[test]
fn counts_fold_file_events_only() {
    let mut counts = Counts { resolved: 0, renamed: 0, skipped: 0, unmatched: 0 };
    counts.observe(&Event::Skipped { path: text("a"), reason: SkipReason::Unnameable });
    counts.observe(&Event::Renamed { path: text("a"), target: text("b"), hash: text("h") });
    counts.observe(&Event::Sidecar { path: text("a"), target: text("a.bib") });
    assert_eq!(counts, Counts { resolved: 0, renamed: 1, skipped: 1, unmatched: 0 });
    assert_eq!(outcome_for(&counts), Outcome::Partial);
    assert_eq!(outcome_for(&Counts { resolved: 1, renamed: 1, skipped: 0, unmatched: 0 }), Outcome::Success);
}

#[test]
fn which_commands_change_the_disk() {
    assert!(!applying(&Command::rename(strings(&["a.pdf"]), false)));
    assert!(applying(&Command::rename(strings(&["a.pdf"]), true)));
    assert!(applying(&Command::bib(strings(&["a.pdf"]))));
    assert!(!applying(&Command::resolve(strings(&["a.pdf"]))));
    assert!(!applying(&Command::config()));
    assert!(applying(&Command::cache(true)));
    assert!(!applying(&Command::cache(false)));
}

#[test]
fn the_search_starts_at_a_named_directory_or_a_file_parent() {
    let is_directory = |p: String| p == "papers";
    assert_eq!(start_directory(&strings(&["papers"]), &is_directory, "/work"), "papers");
    assert_eq!(start_directory(&strings(&["papers/a.pdf"]), &is_directory, "/work"), "papers");
    assert_eq!(start_directory(&strings(&["a.pdf"]), &is_directory, "/work"), "/work");
    assert_eq!(start_directory(&Vec::new(), &is_directory, "/work"), "/work");
}

#[test]
fn inputs_keep_the_first_reach_of_each_path() {
    let reached = vec![
        strings(&["d/a.pdf", "d/b.pdf"]),
        strings(&["d/a.pdf"]),
        strings(&["e/c.pdf", "d/b.pdf"]),
    ];
    assert_eq!(inputs(&reached), strings(&["d/a.pdf", "d/b.pdf", "e/c.pdf"]));
}

#[test]
fn paths_group_by_directory_in_first_reached_order() {
    let groups = by_directory(&strings(&["x/1.pdf", "y/2.pdf", "x/3.pdf", "4.pdf"]));
    assert_eq!(
        groups,
        vec![
            (text("x"), strings(&["x/1.pdf", "x/3.pdf"])),
            (text("y"), strings(&["y/2.pdf"])),
            (text(""), strings(&["4.pdf"])),
        ]
    );
}

#[test]
fn presence_is_the_directory_listing_its_name() {
    let existing = |d: String| if d == "/lib" { strings(&["a.pdf"]) } else { Vec::new() };
    assert!(is_present("/lib/a.pdf", &existing));
    assert!(!is_present("/lib/b.pdf", &existing));
    assert!(!is_present("/", &existing));
}

#[test]
fn template_tables_compile_every_key() {
    let mut map = borax::dict::Dict::new();
    map.insert(text("default"), text("[year]"));
    map.insert(text("thesis"), text("[auth]"));
    let compile = |s: String| -> Result<usize, String> { Ok(s.len()) };
    let (default, table) = templates(&map, "templates", &compile).unwrap();
    assert_eq!(default, 6);
    assert_eq!(table, vec![(EntryType::Thesis, 6)]);
}

#[test]
fn template_tables_refuse_what_they_cannot_use() {
    let compile = |s: String| -> Result<usize, String> {
        if s.contains('!') { Err(text("bad token")) } else { Ok(s.len()) }
    };
    let mut no_default = borax::dict::Dict::new();
    no_default.insert(text("thesis"), text("[auth]"));
    let d = templates(&no_default, "templates", &compile).unwrap_err();
    assert_eq!(d.level, Level::Error);
    assert_eq!(d.message, "templates.default is unset");

    let mut unknown = borax::dict::Dict::new();
    unknown.insert(text("default"), text("[year]"));
    unknown.insert(text("poem"), text("[auth]"));
    let d = templates(&unknown, "citation-keys", &compile).unwrap_err();
    assert_eq!(d.message, "citation-keys.poem names no entry type");

    let mut broken = borax::dict::Dict::new();
    broken.insert(text("default"), text("[year]!"));
    let d = templates(&broken, "templates", &compile).unwrap_err();
    assert_eq!(d.message, "templates.default: bad token");

    let mut broken_type = borax::dict::Dict::new();
    broken_type.insert(text("default"), text("[year]"));
    broken_type.insert(text("book"), text("!"));
    let d = templates(&broken_type, "templates", &compile).unwrap_err();
    assert_eq!(d.message, "templates.book: bad token");
}

#[test]
fn an_admission_is_recorded_relative_to_the_collection() {
    let file = borax::pipeline::FileRecord {
        record: record(),
        hash: Some(text("abc123")),
        source: None,
        tier: None,
        cached: false,
    };
    let entry = admission(true, "/lib", &file, "/lib/papers/x.pdf", "20240101T000000Z", "0.1.0").unwrap();
    assert_eq!(entry.path, "papers/x.pdf");
    assert_eq!(entry.hash, "abc123");
    assert_eq!(entry.run.0, "20240101T000000Z");
    assert_eq!(entry.timestamp, "20240101T000000Z");
    assert_eq!(admission(false, "/lib", &file, "/lib/papers/x.pdf", "t", "v"), None);
    assert_eq!(admission(true, "/lib", &file, "/elsewhere/x.pdf", "t", "v"), None);
    let unhashed = borax::pipeline::FileRecord { hash: None, ..file };
    assert_eq!(admission(true, "/lib", &unhashed, "/lib/x.pdf", "t", "v"), None);
}

#[test]
fn a_file_is_where_its_event_left_it() {
    let moved = Event::Renamed { path: text("a.pdf"), target: text("b.pdf"), hash: text("h") };
    assert_eq!(current_path(&moved, "a.pdf"), "b.pdf");
    let planned = Event::Planned { path: text("a.pdf"), target: text("b.pdf") };
    assert_eq!(current_path(&planned, "a.pdf"), "a.pdf");
}

#[test]
fn diagnostics_have_the_level_their_consequence_deserves() {
    assert_eq!(log_failure(true, text("x")).level, Level::Error);
    assert_eq!(log_failure(false, text("x")).level, Level::Warning);
    assert_eq!(cache_failure("/c", "denied").message, "\"/c\": denied");
    let schema = borax::undo::Refusal::Schema { found: 9 };
    assert_eq!(
        unreplayable("/r.jsonl", &schema, "0.1.0").message,
        "the run log \"/r.jsonl\" is written in schema 9, which this borax (0.1.0) does not understand"
    );
    let bad = borax::undo::Refusal::Unreadable { message: text("eof") };
    assert_eq!(
        unreplayable("/r.jsonl", &bad, "0.1.0").message,
        "the run log \"/r.jsonl\" could not be read (eof), so there is nothing safe to undo"
    );
}

#[test]
fn citation_keys_drop_what_bibtex_cannot_carry() {
    assert_eq!(citation_key("smith 2024,{x}%").as_deref(), Some("smith2024x"));
    assert_eq!(citation_key(" \t{},% "), None);
}

#[test]
fn sidecars_append_their_extension() {
    assert_eq!(sidecar_path("papers/paper.pdf"), "papers/paper.pdf.bib");
    assert_eq!(sidecar_path("paper"), "paper.bib");
    assert_eq!(sidecar_path("papers/"), "papers/.bib");
}

fn sidecars_on() -> BibConfig {
    BibConfig { path: None, duplicates: DuplicatePolicy::Skip, sidecars: true }
}

#[test]
fn a_sidecar_is_written_where_nothing_foreign_sits() {
    let written = RefCell::new(Vec::new());
    let read = |_p: String| -> Result<String, String> { Ok(text("  ")) };
    let is_sidecar = |_t: String| false;
    let write = |p: String, k: String| -> Result<(), String> {
        written.borrow_mut().push((p, k));
        Ok(())
    };
    let (key, event) = write_sidecar("p/a.pdf", "smith2024", &sidecars_on(), &read, &is_sidecar, &write);
    assert_eq!(key.as_deref(), Some("smith2024"));
    assert_eq!(event, Some(Event::Sidecar { path: text("p/a.pdf"), target: text("p/a.pdf.bib") }));
    assert_eq!(*written.borrow(), vec![(text("p/a.pdf.bib"), text("smith2024"))]);
}

#[test]
fn a_foreign_sidecar_is_left_alone() {
    let read = |_p: String| -> Result<String, String> { Ok(text("% my notes")) };
    let is_sidecar = |_t: String| false;
    let write = |_p: String, _k: String| -> Result<(), String> { panic!("must not write") };
    let (_, event) = write_sidecar("a.pdf", "k", &sidecars_on(), &read, &is_sidecar, &write);
    assert_eq!(
        event,
        Some(Event::Skipped {
            path: text("a.pdf"),
            reason: SkipReason::SidecarTaken { target: text("a.pdf.bib") }
        })
    );
    let unreadable = |_p: String| -> Result<String, String> { Err(text("denied")) };
    let (_, event) = write_sidecar("a.pdf", "k", &sidecars_on(), &unreadable, &is_sidecar, &write);
    assert!(matches!(event, Some(Event::Skipped { reason: SkipReason::SidecarTaken { .. }, .. })));
}

#[test]
fn a_refused_sidecar_write_is_lost_output() {
    let read = |_p: String| -> Result<String, String> { Ok(text("@article{x, borax}")) };
    let is_sidecar = |_t: String| true;
    let write = |_p: String, _k: String| -> Result<(), String> { Err(text("disk full")) };
    let (key, event) = write_sidecar("a.pdf", "k", &sidecars_on(), &read, &is_sidecar, &write);
    assert_eq!(key.as_deref(), Some("k"));
    assert_eq!(
        event,
        Some(Event::Skipped {
            path: text("a.pdf"),
            reason: SkipReason::BibWriteFailed { message: text("writing \"a.pdf.bib\": disk full") }
        })
    );
}

#[test]
fn an_unciteable_record_is_skipped_and_no_sidecar_is_written_when_off() {
    let read = |_p: String| -> Result<String, String> { panic!("must not read") };
    let is_sidecar = |_t: String| false;
    let write = |_p: String, _k: String| -> Result<(), String> { panic!("must not write") };
    let (key, event) = write_sidecar("a.pdf", " , ", &sidecars_on(), &read, &is_sidecar, &write);
    assert_eq!(key, None);
    assert_eq!(event, Some(Event::Skipped { path: text("a.pdf"), reason: SkipReason::Unciteable }));
    let off = BibConfig { sidecars: false, ..sidecars_on() };
    let (key, event) = write_sidecar("a.pdf", "k", &off, &read, &is_sidecar, &write);
    assert_eq!((key.as_deref(), event), (Some("k"), None));
}

fn keyed() -> Vec<Keyed> {
    vec![
        Keyed { path: text("a.pdf"), key: text("a2024") },
        Keyed { path: text("b.pdf"), key: text("b2024") },
    ]
}

fn master() -> BibConfig {
    BibConfig { path: Some(text("lib.bib")), duplicates: DuplicatePolicy::Skip, sidecars: false }
}

#[test]
fn the_master_file_reports_each_merge_outcome() {
    let read = |_p: String| -> Result<String, String> { Ok(String::new()) };
    let merge = |existing: String| -> (String, Vec<MergeOutcome>) {
        (
            existing + "merged",
            vec![
                MergeOutcome::Added { key: text("a2024") },
                MergeOutcome::AlreadyPresent { existing_key: text("b2019") },
            ],
        )
    };
    let written = RefCell::new(String::new());
    let write = |_p: String, content: String| -> Result<(), String> {
        *written.borrow_mut() = content;
        Ok(())
    };
    let events = merge_master(&keyed(), &master(), &read, &merge, &write);
    assert_eq!(
        events,
        vec![
            Event::BibEntry { path: text("a.pdf"), key: text("a2024"), outcome: text("added") },
            Event::BibEntry {
                path: text("b.pdf"),
                key: text("b2019"),
                outcome: text("already-present")
            },
        ]
    );
    assert_eq!(*written.borrow(), "merged");
}

#[test]
fn a_master_file_that_cannot_be_read_loses_every_entry() {
    let read = |_p: String| -> Result<String, String> { Err(text("denied")) };
    let merge = |_e: String| -> (String, Vec<MergeOutcome>) { panic!("must not merge") };
    let write = |_p: String, _c: String| -> Result<(), String> { panic!("must not write") };
    let events = merge_master(&keyed(), &master(), &read, &merge, &write);
    let lost = |path: &str| Event::Skipped {
        path: text(path),
        reason: SkipReason::BibWriteFailed { message: text("reading \"lib.bib\": denied") },
    };
    assert_eq!(events, vec![lost("a.pdf"), lost("b.pdf")]);
    let none = BibConfig { path: None, ..master() };
    assert!(merge_master(&keyed(), &none, &read, &merge, &write).is_empty());
    assert!(merge_master(&Vec::new(), &master(), &read, &merge, &write).is_empty());
}

#[test]
fn cache_inspection_counts_and_totals() {
    let stats = inspect("/c", &Walk::Files(vec![10, 20, 30])).unwrap();
    assert_eq!(stats, CacheStats { root: text("/c"), entries: 3, bytes: 60 });
    assert_eq!(inspect("/c", &Walk::Missing).unwrap().entries, 0);
    assert_eq!(inspect("/c", &Walk::Failed(text("denied"))), Err(text("denied")));
    assert_eq!(inspect("/c", &Walk::Files(vec![u64::MAX, 1])).unwrap().bytes, u64::MAX);
    assert_eq!(
        status_event(&stats),
        Event::CacheStatus { root: text("/c"), entries: 3, bytes: 60 }
    );
    assert_eq!(
        cleared_event(&stats),
        Event::CacheCleared { root: text("/c"), entries: 3, bytes: 60 }
    );
}

#[test]
fn clearing_counts_before_it_removes() {
    let removed = RefCell::new(Vec::new());
    let remove = |p: String| -> Result<(), String> {
        removed.borrow_mut().push(p);
        Ok(())
    };
    let stats = clear("/c", &Walk::Files(vec![5]), &remove).unwrap();
    assert_eq!(stats.entries, 1);
    assert_eq!(*removed.borrow(), vec![text("/c")]);
    let untouched = |_p: String| -> Result<(), String> { panic!("nothing to remove") };
    assert_eq!(clear("/c", &Walk::Missing, &untouched).unwrap().entries, 0);
    let refused = |_p: String| -> Result<(), String> { Err(text("busy")) };
    assert_eq!(clear("/c", &Walk::Files(vec![5]), &refused), Err(text("busy")));
}

#[test]
fn cites_only_when_there_is_somewhere_to_write() {
    assert!(cites(&master()));
    assert!(cites(&sidecars_on()));
    assert!(!cites(&BibConfig { path: None, duplicates: DuplicatePolicy::Skip, sidecars: false }));
}

#[test]
fn one_layer_per_prefixed_variable() {
    let env = vec![
        (text("HOME"), text("/h")),
        (text("BORAX_MAILTO"), text("a@b")),
        (text("BORAX_LEDGER"), text("false")),
    ];
    let layers = env_layers(&env).unwrap();
    assert_eq!(layers.len(), 2);
    assert_eq!(layers[0].0, Origin::Env(text("MAILTO")));
    assert_eq!(layers[1].0, Origin::Env(text("LEDGER")));
    assert_eq!(layers[1].1.ledger, Some(false));
}

#[test]
fn flags_outrank_the_environment_which_outranks_files() {
    let env = vec![
        (text("HOME"), text("/h")),
        (text("BORAX_MAILTO"), text("env@example.org")),
        (text("BORAX_RUN_LOG"), text("false")),
    ];
    let load = |p: String| -> Result<Option<Layer>, ConfigError> {
        if p == "/h/.config/borax/config.toml" {
            Ok(Some(Layer {
                mailto: Some(text("file@example.org")),
                ledger: Some(false),
                ..Layer::empty()
            }))
        } else {
            Ok(None)
        }
    };
    let present = |p: String| p == "/h/.config/borax/config.toml";
    let mut settings = Settings::none();
    settings.mailto = Some(text("flag@example.org"));
    let flags = borax::cli::flag_layers(&settings);
    let effective = config_for("/w", flags, &env, &present, &load).unwrap();
    assert_eq!(effective.config().mailto.as_deref(), Some("flag@example.org"));
    assert_eq!(effective.origin("mailto"), Some(&Origin::Flag(text("mailto"))));
    assert!(!effective.config().run_log);
    assert_eq!(effective.origin("run-log"), Some(&Origin::Env(text("RUN_LOG"))));
    assert!(!effective.config().ledger);
    assert_eq!(
        effective.origin("ledger"),
        Some(&Origin::GlobalFile(text("/h/.config/borax/config.toml")))
    );
}

#[test]
fn a_file_that_will_not_load_ends_the_run() {
    let refuse = |p: String| -> Result<Option<Layer>, ConfigError> {
        Err(ConfigError::Unreadable { path: p, message: text("broken") })
    };
    let present = |p: String| p == "/w/.borax.toml";
    let result = config_for("/w", Vec::new(), &Vec::new(), &present, &refuse);
    assert_eq!(
        result.unwrap_err(),
        ConfigError::Unreadable { path: text("/w/.borax.toml"), message: text("broken") }
    );
}

#[test]
fn each_directory_gets_its_own_override() {
    let load = |p: String| -> Result<Option<Layer>, ConfigError> {
        if p == "/a/.borax.toml" {
            Ok(Some(Layer { mailto: Some(text("a@x")), ..Layer::empty() }))
        } else {
            Ok(None)
        }
    };
    let present = |p: String| p == "/a/.borax.toml";
    let configs = Configs::resolve(
        &strings(&["/a/1.pdf", "/b/2.pdf", "/a/3.pdf"]),
        "/b",
        &Settings::none(),
        &Vec::new(),
        &present,
        &load,
    )
    .unwrap();
    assert_eq!(configs.for_path("/a/1.pdf").config().mailto.as_deref(), Some("a@x"));
    assert_eq!(configs.for_directory("/b").config().mailto, None);
    assert_eq!(configs.run().config().mailto, None);
    assert_eq!(configs.for_directory("/never").config().mailto, None);
    let uniform = Configs::uniform(borax::resolution::resolve(Vec::new()).unwrap());
    assert_eq!(uniform.for_path("/a/1.pdf").config().concurrency, 4);
}

#[test]
fn the_cli_picks_its_format() {
    let cli = Cli { command: Command::config(), json: true };
    assert_eq!(cli.format(), borax::event::Format::Json);
}

#[test]
fn bibliography_output_is_every_sidecar_then_every_master_entry() {
    let config = BibConfig {
        path: Some(text("lib.bib")),
        duplicates: DuplicatePolicy::Skip,
        sidecars: true,
    };
    let read = |_p: String| -> Result<String, String> { Ok(String::new()) };
    let is_sidecar = |_t: String| true;
    let sidecars = RefCell::new(Vec::new());
    let write_sidecar_of = |p: String, k: String| -> Result<(), String> {
        sidecars.borrow_mut().push((p, k));
        Ok(())
    };
    let merge = |existing: String| -> (String, Vec<MergeOutcome>) {
        (
            existing + "merged",
            vec![
                MergeOutcome::Added { key: text("a2024") },
                MergeOutcome::AlreadyPresent { existing_key: text("c1999") },
            ],
        )
    };
    let master = RefCell::new(Vec::new());
    let write_master = |p: String, c: String| -> Result<(), String> {
        master.borrow_mut().push((p, c));
        Ok(())
    };
    let resolved = vec![
        (text("a.pdf"), text("a2024")),
        (text("b.pdf"), text(" , ")),
        (text("c.pdf"), text("c2024")),
    ];
    let events =
        write_bib(&resolved, &config, &read, &is_sidecar, &write_sidecar_of, &merge, &write_master);
    assert_eq!(
        events,
        vec![
            Event::Sidecar { path: text("a.pdf"), target: text("a.pdf.bib") },
            Event::Skipped { path: text("b.pdf"), reason: SkipReason::Unciteable },
            Event::Sidecar { path: text("c.pdf"), target: text("c.pdf.bib") },
            Event::BibEntry { path: text("a.pdf"), key: text("a2024"), outcome: text("added") },
            Event::BibEntry {
                path: text("c.pdf"),
                key: text("c1999"),
                outcome: text("already-present")
            },
        ]
    );
    assert_eq!(
        *sidecars.borrow(),
        vec![(text("a.pdf.bib"), text("a2024")), (text("c.pdf.bib"), text("c2024"))]
    );
    assert_eq!(*master.borrow(), vec![(text("lib.bib"), text("merged"))]);
}

#[test]
fn bibliography_output_with_nowhere_to_go_only_names_the_unciteable() {
    let config = BibConfig { path: None, duplicates: DuplicatePolicy::Skip, sidecars: false };
    let read = |_p: String| -> Result<String, String> { panic!("must not read") };
    let is_sidecar = |_t: String| false;
    let write = |_p: String, _c: String| -> Result<(), String> { panic!("must not write") };
    let merge = |_e: String| -> (String, Vec<MergeOutcome>) { panic!("must not merge") };
    let resolved = vec![(text("a.pdf"), text("a2024")), (text("b.pdf"), text(""))];
    let events = write_bib(&resolved, &config, &read, &is_sidecar, &write, &merge, &write);
    assert_eq!(events, vec![Event::Skipped { path: text("b.pdf"), reason: SkipReason::Unciteable }]);
}

#[test]
fn with_no_files_and_no_variables_the_flags_alone_count() {
    let load = |_p: String| -> Result<Option<Layer>, ConfigError> { Ok(None) };
    let present = |_p: String| false;
    let env = vec![(text("HOME"), text("/h")), (text("PATH"), text("/bin"))];
    let mut settings = Settings::none();
    settings.mailto = Some(text("flag@example.org"));
    let effective = config_for("/w", borax::cli::flag_layers(&settings), &env, &present, &load).unwrap();
    let alone = borax::resolution::resolve(borax::cli::flag_layers(&settings)).unwrap();
    assert_eq!(effective.entries(), alone.entries());
}
