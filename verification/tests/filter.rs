use prologger::filter::{debug_modules_text, Filter};
use prologger::{Level, LevelFilter, Metadata};

fn metadata(level: Level, target: &str) -> Metadata {
    Metadata::new(level, target)
}

#[test]
fn test_global_level() {
    let filter = Filter::new(LevelFilter::Warn);
    assert!(filter.is_enabled(&metadata(Level::Error, "any")));
    assert!(filter.is_enabled(&metadata(Level::Warn, "any")));
    assert!(!filter.is_enabled(&metadata(Level::Info, "any")));
    assert!(!filter.is_enabled(&metadata(Level::Debug, "any")));
}

#[test]
fn test_module_override() {
    let filter = Filter::new(LevelFilter::Info).with_module("noisy_lib", LevelFilter::Warn);

    // Normal module uses global level
    assert!(filter.is_enabled(&metadata(Level::Info, "my_app")));

    // Overridden module is more restrictive
    assert!(filter.is_enabled(&metadata(Level::Warn, "noisy_lib")));
    assert!(!filter.is_enabled(&metadata(Level::Info, "noisy_lib")));
    assert!(!filter.is_enabled(&metadata(Level::Info, "noisy_lib::submodule")));
}

#[test]
fn test_longest_prefix_match() {
    let filter = Filter::new(LevelFilter::Info)
        .with_module("my_app", LevelFilter::Warn)
        .with_module("my_app::db", LevelFilter::Debug);

    // "my_app" gets Warn
    assert!(!filter.is_enabled(&metadata(Level::Info, "my_app")));

    // "my_app::db" gets Debug (more specific)
    assert!(filter.is_enabled(&metadata(Level::Debug, "my_app::db")));

    // "my_app::api" gets Warn (falls back to "my_app")
    assert!(!filter.is_enabled(&metadata(Level::Info, "my_app::api")));
}

// ─── Further cases ────────────────────────────────────────────────────────

#[test]
fn prefix_must_end_at_a_path_separator() {
    let filter = Filter::new(LevelFilter::Trace).with_module("app", LevelFilter::Error);
    // "application" does not start with "app::", so the global level applies.
    assert!(filter.is_enabled(&metadata(Level::Trace, "application")));
    assert!(!filter.is_enabled(&metadata(Level::Warn, "app::x")));
    assert!(!filter.is_enabled(&metadata(Level::Warn, "app")));
    // A single colon is not a path separator.
    assert!(filter.is_enabled(&metadata(Level::Trace, "app:x")));
}

#[test]
fn later_override_of_a_module_replaces_earlier() {
    let filter = Filter::new(LevelFilter::Info)
        .with_module("db", LevelFilter::Error)
        .with_module("db", LevelFilter::Trace);
    assert!(filter.is_enabled(&metadata(Level::Trace, "db::pool")));
    // The order in which overlapping modules are set does not matter.
    let filter = Filter::new(LevelFilter::Info)
        .with_module("my_app::db", LevelFilter::Debug)
        .with_module("my_app", LevelFilter::Warn);
    assert!(filter.is_enabled(&metadata(Level::Debug, "my_app::db::query")));
    assert!(!filter.is_enabled(&metadata(Level::Info, "my_app::api")));
}

#[test]
fn off_and_trace_filters() {
    let off = Filter::new(LevelFilter::Off);
    for level in [Level::Error, Level::Warn, Level::Info, Level::Debug, Level::Trace] {
        assert!(!off.is_enabled(&metadata(level, "x")));
        assert!(Filter::new(LevelFilter::Trace).is_enabled(&metadata(level, "x")));
    }
    assert_eq!(Filter::default().global_level(), LevelFilter::Info);
}

#[test]
fn severity_is_monotone() {
    let filter = Filter::new(LevelFilter::Info).with_module("m", LevelFilter::Debug);
    for target in ["m", "m::n", "other"] {
        let mut enabled_before = true;
        for level in [Level::Error, Level::Warn, Level::Info, Level::Debug, Level::Trace] {
            let enabled = filter.is_enabled(&metadata(level, target));
            // Once a level is refused, every less severe level is refused.
            assert!(enabled_before || !enabled);
            enabled_before = enabled;
        }
    }
}

#[test]
fn level_names_and_ranks() {
    assert_eq!(Level::Warn.as_str(), "WARN");
    assert_eq!(LevelFilter::Off.as_str(), "OFF");
    assert_eq!(Level::Debug.to_level_filter(), LevelFilter::Debug);
    assert!(prologger::level::level_passes(Level::Error, LevelFilter::Error));
    assert!(!prologger::level::level_passes(Level::Info, LevelFilter::Warn));
}

#[test]
fn module_chain_last_setting_wins_and_order_of_distinct_modules_is_free() {
    let a = Filter::new(LevelFilter::Warn)
        .with_module("db", LevelFilter::Trace)
        .with_module("net", LevelFilter::Error)
        .with_module("db", LevelFilter::Error);
    let b = Filter::new(LevelFilter::Warn)
        .with_module("net", LevelFilter::Error)
        .with_module("db", LevelFilter::Error);
    for target in ["db", "db::pool", "net", "other"] {
        for level in [Level::Error, Level::Warn, Level::Info, Level::Trace] {
            let m = Metadata::new(level, target);
            assert_eq!(a.is_enabled(&m), b.is_enabled(&m));
        }
    }
    assert!(!a.is_enabled(&Metadata::new(Level::Warn, "db")));
    assert_eq!(
        a.debug_text(),
        "Filter { global_level: Warn, module_levels: {\"net\": Error, \"db\": Error} }"
    );
}

#[test]
fn debug_text_escapes_as_string_debug_does() {
    let names = ["a\u{200b}b", "soft\u{ad}hyphen", "e\u{301}", "it's \"x\"\\", "tab\tnew\nline\u{0}", "é✓"];
    let mut filter = Filter::new(LevelFilter::Info);
    for name in names {
        filter = filter.with_module(name, LevelFilter::Debug);
    }
    let entries: Vec<String> = names.iter().map(|n| format!("{:?}: Debug", n)).collect();
    let expected = format!(
        "Filter {{ global_level: Info, module_levels: {{{}}} }}",
        entries.join(", ")
    );
    assert_eq!(filter.debug_text(), expected);
}

#[test]
fn module_levels_text_keeps_last_settings_in_order() {
    let settings = vec![
        ("a".to_string(), LevelFilter::Warn),
        ("b".to_string(), LevelFilter::Error),
        ("a".to_string(), LevelFilter::Trace),
    ];
    let escaped = vec!["A".to_string(), "B".to_string(), "A2".to_string()];
    assert_eq!(debug_modules_text(&settings, &escaped), "{\"B\": Error, \"A2\": Trace}");
    assert_eq!(debug_modules_text(&Vec::new(), &Vec::new()), "{}");
}
