use borax::cli::{flag_layers, Settings};
use borax::config::{
    BibLayer, ExtractionLayer, CollisionPolicy, DuplicatePolicy, KeyColumns, Layer, NetworkLayer, Origin,
    RenameLayer, SourceName, TableDeclaration, ValueKindName,
};
use borax::dict::Dict;
use borax::discovery::{
    collection_root, command_line_only_in, global_config_path, layer_from_env, layer_refusal,
    nearest_override,
};
use borax::resolution::{resolve, Config, ConfigError};

fn text(s: &str) -> String {
    s.to_string()
}

fn env(pairs: &[(&str, &str)]) -> Vec<(String, String)> {
    pairs.iter().map(|(n, v)| (text(n), text(v))).collect()
}

fn mailto(address: &str) -> Layer {
    Layer { mailto: Some(text(address)), ..Layer::empty() }
}

fn collision(policy: &str) -> Layer {
    Layer { rename: Some(RenameLayer { collision: Some(text(policy)) }), ..Layer::empty() }
}

fn templates(pairs: &[(&str, &str)]) -> Dict<String> {
    let mut d = Dict::new();
    for (k, v) in pairs {
        d.insert(text(k), text(v));
    }
    d
}

fn global(path: &str) -> Origin {
    Origin::GlobalFile(text(path))
}

fn directory(path: &str) -> Origin {
    Origin::DirectoryFile(text(path))
}

#[test]
fn no_layers_resolve_to_the_defaults() {
    let effective = resolve(Vec::new()).unwrap();
    let config = effective.config();
    assert_eq!(config.mailto, None);
    assert_eq!(config.concurrency, 4);
    assert_eq!(config.min_interval_ms, 1000);
    assert_eq!(config.page_limit, 2);
    assert_eq!(config.collision, CollisionPolicy::Suffix);
    assert_eq!(config.duplicates, DuplicatePolicy::Skip);
    assert!(!config.sidecars);
    assert!(config.cache && config.ledger && config.run_log);
    assert_eq!(
        config.sources,
        vec![SourceName::Crossref, SourceName::OpenAlex, SourceName::Arxiv]
    );
    assert_eq!(
        config.templates.get("default").map(String::as_str),
        Some("[auth:lower][year]_[shorttitle3:camel]")
    );
    assert_eq!(
        config.citation_keys.get("default").map(String::as_str),
        Some("[auth:lower][year]")
    );
    assert_eq!(effective.origin("mailto"), Some(&Origin::Default));
    assert_eq!(effective.origin("templates.default"), Some(&Origin::Default));
}

#[test]
fn default_config_matches_resolving_nothing() {
    let built_in = Config::default();
    let resolved = resolve(Vec::new()).unwrap();
    assert_eq!(&built_in, resolved.config());
}

#[test]
fn the_later_layer_wins_and_is_the_origin() {
    let layers = vec![
        (global("/home/you/.config/borax/config.toml"), mailto("a@example.org")),
        (Origin::Env(text("MAILTO")), mailto("b@example.org")),
    ];
    let effective = resolve(layers).unwrap();
    assert_eq!(effective.config().mailto.as_deref(), Some("b@example.org"));
    assert_eq!(effective.origin("mailto"), Some(&Origin::Env(text("MAILTO"))));
}

#[test]
fn a_silent_layer_leaves_lower_layers_showing_through() {
    let layers = vec![
        (directory("/papers/.borax.toml"), collision("skip")),
        (Origin::Flag(text("mailto")), mailto("you@example.org")),
    ];
    let effective = resolve(layers).unwrap();
    assert_eq!(effective.config().collision, CollisionPolicy::Skip);
    assert_eq!(
        effective.origin("rename.collision"),
        Some(&directory("/papers/.borax.toml"))
    );
    assert_eq!(effective.origin("mailto"), Some(&Origin::Flag(text("mailto"))));
    assert_eq!(effective.origin("network.concurrency"), Some(&Origin::Default));
}

#[test]
fn templates_merge_per_entry_type() {
    let layers = vec![
        (
            global("/g.toml"),
            Layer { templates: Some(templates(&[("default", "[year]")])), ..Layer::empty() },
        ),
        (
            directory("/d/.borax.toml"),
            Layer {
                templates: Some(templates(&[("thesis", "[auth:lower]_thesis")])),
                ..Layer::empty()
            },
        ),
    ];
    let effective = resolve(layers).unwrap();
    let config = effective.config();
    assert_eq!(config.templates.get("default").map(String::as_str), Some("[year]"));
    assert_eq!(
        config.templates.get("thesis").map(String::as_str),
        Some("[auth:lower]_thesis")
    );
    assert_eq!(effective.origin("templates.default"), Some(&global("/g.toml")));
    assert_eq!(effective.origin("templates.thesis"), Some(&directory("/d/.borax.toml")));
    assert_eq!(
        config.citation_keys.get("default").map(String::as_str),
        Some("[auth:lower][year]")
    );
}

#[test]
fn an_unknown_source_is_refused_naming_the_supported_ones() {
    let layers = vec![(
        Origin::Flag(text("sources")),
        Layer { sources: Some(vec![text("crossref"), text("bogus")]), ..Layer::empty() },
    )];
    match resolve(layers) {
        Err(ConfigError::Invalid { key, origin, message }) => {
            assert_eq!(key, "sources");
            assert_eq!(origin, Origin::Flag(text("sources")));
            assert_eq!(
                message,
                "unknown source \"bogus\", expected one of \"crossref\", \"openalex\", \"arxiv\""
            );
        }
        other => panic!("unexpected {other:?}"),
    }
}

#[test]
fn sources_are_kept_as_named() {
    let layers = vec![(
        Origin::Default,
        Layer { sources: Some(vec![text("arxiv"), text("crossref")]), ..Layer::empty() },
    )];
    let effective = resolve(layers).unwrap();
    assert_eq!(
        effective.config().sources,
        vec![SourceName::Arxiv, SourceName::Crossref]
    );
}

#[test]
fn an_unknown_collision_policy_is_refused() {
    let layers = vec![(directory("/p/.borax.toml"), collision("rename"))];
    match resolve(layers) {
        Err(ConfigError::Invalid { key, origin, message }) => {
            assert_eq!(key, "rename.collision");
            assert_eq!(origin, directory("/p/.borax.toml"));
            assert_eq!(message, "expected suffix or skip, got \"rename\"");
        }
        other => panic!("unexpected {other:?}"),
    }
}

#[test]
fn an_unknown_duplicate_policy_is_refused() {
    let layers = vec![(
        Origin::Default,
        Layer {
            bib: Some(BibLayer { path: None, duplicates: Some(text("merge")), sidecars: None }),
            ..Layer::empty()
        },
    )];
    match resolve(layers) {
        Err(ConfigError::Invalid { key, message, .. }) => {
            assert_eq!(key, "bib.duplicates");
            assert_eq!(message, "expected skip or update, got \"merge\"");
        }
        other => panic!("unexpected {other:?}"),
    }
}

#[test]
fn sources_are_checked_before_the_collision_policy() {
    let mut layer = collision("bad");
    layer.sources = Some(vec![text("nowhere")]);
    match resolve(vec![(Origin::Default, layer)]) {
        Err(ConfigError::Invalid { key, .. }) => assert_eq!(key, "sources"),
        other => panic!("unexpected {other:?}"),
    }
}

#[test]
fn an_overridden_bad_value_is_no_error() {
    let layers = vec![
        (global("/g"), collision("bad")),
        (Origin::Flag(text("collision")), collision("skip")),
    ];
    let effective = resolve(layers).unwrap();
    assert_eq!(effective.config().collision, CollisionPolicy::Skip);
}

#[test]
fn entries_render_every_setting_in_key_order() {
    let effective = resolve(Vec::new()).unwrap();
    let entries = effective.entries();
    let keys: Vec<&str> = entries.iter().map(|(k, _, _)| k.as_str()).collect();
    let mut sorted = keys.clone();
    sorted.sort();
    assert_eq!(keys, sorted);
    let find = |key: &str| entries.iter().find(|(k, _, _)| k == key).cloned().unwrap();
    assert_eq!(find("bib.duplicates").1, "\"skip\"");
    assert_eq!(find("mailto").1, "");
    assert_eq!(find("network.concurrency").1, "4");
    assert_eq!(find("network.min-interval-ms").1, "1000");
    assert_eq!(find("ledger").1, "true");
    assert_eq!(find("bib.sidecars").1, "false");
    assert_eq!(find("sources").1, "[\"crossref\", \"openalex\", \"arxiv\"]");
    assert_eq!(
        find("templates.default").1,
        "\"[auth:lower][year]_[shorttitle3:camel]\""
    );
    assert_eq!(find("citation-keys.default").2, Origin::Default);
    assert_eq!(entries.len(), 15);
}

#[test]
fn events_carry_the_origin_wording() {
    let layers = vec![(global("/home/you/.config/borax/config.toml"), mailto("you@example.org"))];
    let effective = resolve(layers).unwrap();
    let events = effective.events();
    assert_eq!(events.len(), effective.entries().len());
    let line = events
        .iter()
        .find_map(|e| match e {
            borax::event::Event::ConfigSetting { key, value, origin } if key == "mailto" => {
                Some((value.clone(), origin.clone()))
            }
            _ => None,
        })
        .unwrap();
    assert_eq!(line.0, "\"you@example.org\"");
    assert_eq!(line.1, "global /home/you/.config/borax/config.toml");
}

#[test]
fn table_declarations_have_four_keys_each() {
    let mut tables = Dict::new();
    tables.insert(
        text("journals"),
        TableDeclaration {
            path: text("journals.csv"),
            key: KeyColumns::Many(vec![text("title"), text("abbrev")]),
            value: text("short"),
            values: ValueKindName::Template,
        },
    );
    let layers = vec![(directory("/c/.borax.toml"), Layer { tables: Some(tables), ..Layer::empty() })];
    let effective = resolve(layers).unwrap();
    assert_eq!(
        effective.origin("tables.journals.path"),
        Some(&directory("/c/.borax.toml"))
    );
    assert_eq!(effective.origin("tables.journals.values"), Some(&directory("/c/.borax.toml")));
    assert_eq!(effective.origin("tables.journals.other"), None);
    assert_eq!(effective.origin("tables.unknown.path"), None);
    assert_eq!(effective.origin("no-such-setting"), None);
    let entries = effective.entries();
    let key = entries.iter().find(|(k, _, _)| k == "tables.journals.key").unwrap();
    assert_eq!(key.1, "[\"title\", \"abbrev\"]");
    let values = entries.iter().find(|(k, _, _)| k == "tables.journals.values").unwrap();
    assert_eq!(values.1, "\"template\"");
    assert_eq!(entries.len(), 19);
}

#[test]
fn table_paths_are_taken_from_the_declaring_file() {
    assert_eq!(borax::config::table_path("journals.csv", "/c/.borax.toml"), "/c/journals.csv");
    assert_eq!(borax::config::table_path("/abs/j.csv", "/c/.borax.toml"), "/abs/j.csv");
}

#[test]
fn config_errors_read_as_sentences() {
    let unknown = ConfigError::UnknownEnv { name: text("BOGUS") };
    assert_eq!(unknown.text(), "BORAX_BOGUS names no setting");
    let invalid = ConfigError::Invalid {
        key: text("mailto"),
        origin: Origin::Env(text("MAILTO")),
        message: text("bad"),
    };
    assert_eq!(invalid.text(), "mailto (env BORAX_MAILTO): bad");
    let only = ConfigError::CommandLineOnly { path: text("/p/.borax.toml"), key: text("apply") };
    assert_eq!(
        only.text(),
        "/p/.borax.toml: `apply` must be passed on the command line and cannot be set in a configuration file"
    );
    let unreadable = ConfigError::Unreadable { path: text("/x"), message: text("nope") };
    assert_eq!(unreadable.text(), "/x: nope");
}

#[test]
fn environment_variables_set_settings() {
    let layer = layer_from_env(&env(&[
        ("PATH", "/bin"),
        ("BORAX_MAILTO", "you@example.org"),
        ("BORAX_NETWORK_CONCURRENCY", "+8"),
        ("BORAX_SOURCES", " crossref , arxiv"),
        ("BORAX_LEDGER", "false"),
    ]))
    .unwrap();
    assert_eq!(layer.mailto.as_deref(), Some("you@example.org"));
    assert_eq!(layer.network.as_ref().unwrap().concurrency, Some(8));
    assert_eq!(layer.sources, Some(vec![text("crossref"), text("arxiv")]));
    assert_eq!(layer.ledger, Some(false));
    assert_eq!(layer.templates, None);
}

#[test]
fn a_later_variable_overrides_an_earlier_one() {
    let layer = layer_from_env(&env(&[("BORAX_MAILTO", "a"), ("BORAX_MAILTO", "b")])).unwrap();
    assert_eq!(layer.mailto.as_deref(), Some("b"));
}

#[test]
fn a_prefixed_variable_naming_nothing_is_refused() {
    assert_eq!(
        layer_from_env(&env(&[("BORAX_BOGUS", "1")])),
        Err(ConfigError::UnknownEnv { name: text("BOGUS") })
    );
}

#[test]
fn a_value_of_the_wrong_type_is_refused() {
    match layer_from_env(&env(&[("BORAX_NETWORK_MIN_INTERVAL_MS", "soon")])) {
        Err(ConfigError::Invalid { key, origin, message }) => {
            assert_eq!(key, "network.min-interval-ms");
            assert_eq!(origin, Origin::Env(text("NETWORK_MIN_INTERVAL_MS")));
            assert_eq!(message, "expected a whole number, got \"soon\"");
        }
        other => panic!("unexpected {other:?}"),
    }
    match layer_from_env(&env(&[("BORAX_RUN_LOG", "yes")])) {
        Err(ConfigError::Invalid { message, .. }) => {
            assert_eq!(message, "expected true or false, got \"yes\"")
        }
        other => panic!("unexpected {other:?}"),
    }
}

#[test]
fn a_number_too_large_is_refused() {
    assert!(layer_from_env(&env(&[("BORAX_NETWORK_MIN_INTERVAL_MS", "18446744073709551616")])).is_err());
    let layer = layer_from_env(&env(&[("BORAX_NETWORK_MIN_INTERVAL_MS", "18446744073709551615")])).unwrap();
    assert_eq!(layer.network.unwrap().min_interval_ms, Some(u64::MAX));
}

#[test]
fn the_global_file_follows_the_xdg_rules() {
    assert_eq!(
        global_config_path(&env(&[("XDG_CONFIG_HOME", "/x"), ("HOME", "/h")])).as_deref(),
        Some("/x/borax/config.toml")
    );
    assert_eq!(
        global_config_path(&env(&[("XDG_CONFIG_HOME", "relative"), ("HOME", "/h")])).as_deref(),
        Some("/h/.config/borax/config.toml")
    );
    assert_eq!(global_config_path(&env(&[("HOME", "")])), None);
}

#[test]
fn the_nearest_override_wins() {
    let is_file = |p: String| p == "/a/.borax.toml" || p == "/a/b/.borax.toml";
    assert_eq!(
        nearest_override("/a/b/c", &is_file).as_deref(),
        Some("/a/b/.borax.toml")
    );
    let only_top = |p: String| p == "/.borax.toml";
    assert_eq!(nearest_override("/a/b", &only_top).as_deref(), Some("/.borax.toml"));
    let nothing = |_p: String| false;
    assert_eq!(nearest_override("/a/b", &nothing), None);
}

#[test]
fn the_collection_root_is_the_override_directory_unless_configured() {
    let is_file = |p: String| p == "/lib/.borax.toml";
    assert_eq!(
        collection_root("/lib/papers", None, &is_file).as_deref(),
        Some("/lib")
    );
    assert_eq!(
        collection_root("/lib/papers", Some("/elsewhere"), &is_file).as_deref(),
        Some("/elsewhere")
    );
    let nothing = |_p: String| false;
    assert_eq!(collection_root("/lib/papers", None, &nothing), None);
}

#[test]
fn a_file_setting_apply_is_refused_for_that_reason() {
    assert_eq!(
        layer_refusal("[rename]\napply = true\n", "/p/.borax.toml", text("unknown field")),
        ConfigError::CommandLineOnly { path: text("/p/.borax.toml"), key: text("apply") }
    );
    assert_eq!(
        layer_refusal("apply = true\n", "/p/.borax.toml", text("unknown field")),
        ConfigError::CommandLineOnly { path: text("/p/.borax.toml"), key: text("apply") }
    );
}

#[test]
fn other_unloadable_files_are_unreadable() {
    assert_eq!(
        layer_refusal("mailto = 3\n", "/p/.borax.toml", text("invalid type")),
        ConfigError::Unreadable { path: text("/p/.borax.toml"), message: text("invalid type") }
    );
    assert_eq!(
        layer_refusal("= [", "/p/.borax.toml", text("expected a key")),
        ConfigError::Unreadable { path: text("/p/.borax.toml"), message: text("expected a key") }
    );
}

#[test]
fn the_command_line_only_key_is_found_in_any_table() {
    let outline = vec![
        (text("mailto"), None),
        (text("rename"), Some(vec![text("apply"), text("collision")])),
    ];
    assert_eq!(command_line_only_in(&outline), Some("apply"));
    let clean = vec![(text("rename"), Some(vec![text("collision")]))];
    assert_eq!(command_line_only_in(&clean), None);
}

#[test]
fn network_layers_carry_one_setting() {
    let layer = borax::cli::network_layer(NetworkLayer {
        concurrency: Some(2),
        min_interval_ms: None,
        cache: None,
    });
    let effective = resolve(vec![(Origin::Flag(text("concurrency")), layer)]).unwrap();
    assert_eq!(effective.config().concurrency, 2);
}

#[test]
fn an_environment_layer_is_exactly_its_settings() {
    let layer = layer_from_env(&env(&[
        ("BORAX_NETWORK_MIN_INTERVAL_MS", "250"),
        ("BORAX_SOURCES", "crossref, arxiv"),
        ("HOME", "/home/u"),
    ]))
    .unwrap();
    assert_eq!(
        layer,
        Layer {
            network: Some(NetworkLayer { concurrency: None, min_interval_ms: Some(250), cache: None }),
            sources: Some(vec![text("crossref"), text("arxiv")]),
            ..Layer::empty()
        }
    );
}

#[test]
fn each_flag_layer_is_exactly_its_flag() {
    let settings = Settings { no_sidecars: true, page_limit: Some(3), ..Settings::default() };
    assert_eq!(
        flag_layers(&settings),
        vec![
            (
                Origin::Flag(text("no-sidecars")),
                Layer {
                    bib: Some(BibLayer { path: None, duplicates: None, sidecars: Some(false) }),
                    ..Layer::empty()
                }
            ),
            (
                Origin::Flag(text("page-limit")),
                Layer { extraction: Some(ExtractionLayer { page_limit: Some(3) }), ..Layer::empty() }
            ),
        ]
    );
}

#[test]
fn every_listed_key_has_its_origin_and_events_follow_rows() {
    let mut tables = Dict::new();
    tables.insert(
        text("journals"),
        TableDeclaration {
            path: text("journals.csv"),
            key: KeyColumns::One(text("title")),
            value: text("short"),
            values: ValueKindName::Text,
        },
    );
    let layers = vec![
        (global("/g.toml"), Layer { templates: Some(templates(&[("thesis", "[year]")])), ..mailto("a@b") }),
        (directory("/c/.borax.toml"), Layer { tables: Some(tables), ..Layer::empty() }),
    ];
    let effective = resolve(layers).unwrap();
    let entries = effective.entries();
    for (key, _, origin) in &entries {
        assert_eq!(effective.origin(key), Some(origin));
    }
    assert_eq!(effective.origin("mailtoo"), None);
    assert_eq!(effective.origin("templates.article"), None);
    let events = effective.events();
    assert_eq!(events.len(), entries.len());
    for (event, (key, value, origin)) in events.iter().zip(entries.iter()) {
        assert_eq!(
            event,
            &borax::event::Event::ConfigSetting {
                key: key.clone(),
                value: value.clone(),
                origin: origin.text(),
            }
        );
    }
    let config = effective.config();
    assert!(config.templates.get("thesis").is_some());
    assert!(config.templates.get("default").is_some());
    assert!(config.citation_keys.get("default").is_some());
}

#[test]
fn one_flag_layer_per_flag_given() {
    let settings = Settings {
        mailto: Some(text("a@b")),
        sidecars: true,
        cache: true,
        no_run_log: true,
        ..Settings::default()
    };
    assert_eq!(flag_layers(&settings).len(), 4);
    assert!(flag_layers(&Settings::default()).is_empty());
}
