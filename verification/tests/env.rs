use prologger::env::EnvConfig;
use prologger::env::parse_level;
use prologger::{EnvLookup, EnvParseError, Level, LevelFilter, Metadata, ProLoggerBuilder};

#[test]
fn test_parse_global_level() {
    let config = EnvConfig::parse("debug").unwrap();
    assert_eq!(config.global_level(), Some(LevelFilter::Debug));
    assert!(config.module_levels().is_empty());
}

#[test]
fn test_parse_case_insensitive() {
    assert_eq!(
        EnvConfig::parse("DEBUG").unwrap().global_level(),
        Some(LevelFilter::Debug)
    );
    assert_eq!(
        EnvConfig::parse("Debug").unwrap().global_level(),
        Some(LevelFilter::Debug)
    );
    assert_eq!(
        EnvConfig::parse("WARNING").unwrap().global_level(),
        Some(LevelFilter::Warn)
    );
}

#[test]
fn test_parse_module_level() {
    let config = EnvConfig::parse("hyper=warn").unwrap();
    assert_eq!(config.global_level(), None);
    assert_eq!(config.module_levels().len(), 1);
    assert_eq!(
        config.module_levels()[0],
        ("hyper".to_string(), LevelFilter::Warn)
    );
}

#[test]
fn test_parse_mixed() {
    let config = EnvConfig::parse("warn,my_app=debug,hyper=error").unwrap();
    assert_eq!(config.global_level(), Some(LevelFilter::Warn));
    assert_eq!(config.module_levels().len(), 2);
    assert_eq!(
        config.module_levels()[0],
        ("my_app".to_string(), LevelFilter::Debug)
    );
    assert_eq!(
        config.module_levels()[1],
        ("hyper".to_string(), LevelFilter::Error)
    );
}

#[test]
fn test_parse_nested_modules() {
    let config = EnvConfig::parse("my_app::db=trace,my_app::api=warn").unwrap();
    assert_eq!(config.module_levels().len(), 2);
    assert_eq!(
        config.module_levels()[0],
        ("my_app::db".to_string(), LevelFilter::Trace)
    );
}

#[test]
fn test_parse_empty() {
    let config = EnvConfig::parse("").unwrap();
    assert_eq!(config.global_level(), None);
    assert!(config.module_levels().is_empty());
}

#[test]
fn test_parse_whitespace() {
    let config = EnvConfig::parse("  warn , my_app = debug  ").unwrap();
    assert_eq!(config.global_level(), Some(LevelFilter::Warn));
    assert_eq!(config.module_levels().len(), 1);
}

#[test]
fn test_parse_off() {
    let config = EnvConfig::parse("off").unwrap();
    assert_eq!(config.global_level(), Some(LevelFilter::Off));
}

#[test]
fn test_parse_invalid_level() {
    assert!(EnvConfig::parse("banana").is_err());
}

#[test]
fn test_parse_duplicate_global() {
    assert!(EnvConfig::parse("debug,warn").is_err());
}

#[test]
fn test_parse_empty_module() {
    assert!(EnvConfig::parse("=debug").is_err());
}

// ─── Further cases ────────────────────────────────────────────────────────

#[test]
fn parse_all_level_names() {
    let cases = [
        ("trace", LevelFilter::Trace),
        ("DEBUG", LevelFilter::Debug),
        ("Info", LevelFilter::Info),
        ("warn", LevelFilter::Warn),
        ("Warning", LevelFilter::Warn),
        ("ERROR", LevelFilter::Error),
        ("off", LevelFilter::Off),
        ("NONE", LevelFilter::Off),
    ];
    for (text, level) in cases {
        assert_eq!(EnvConfig::parse(text).unwrap().global_level(), Some(level));
        assert_eq!(prologger::env::parse_level(text), Some(level));
    }
    assert_eq!(prologger::env::parse_level("inf"), None);
    assert_eq!(prologger::env::parse_level(" info"), None);
}

#[test]
fn parse_error_variants_carry_the_offending_text() {
    match EnvConfig::parse("warn, loud ") {
        Err(EnvParseError::InvalidLevel(s)) => assert_eq!(s, "loud"),
        other => panic!("unexpected {:?}", other),
    }
    match EnvConfig::parse("a=b=c") {
        Err(EnvParseError::InvalidLevel(s)) => assert_eq!(s, "b=c"),
        other => panic!("unexpected {:?}", other),
    }
    match EnvConfig::parse(" = info ") {
        Err(EnvParseError::EmptyModule(s)) => assert_eq!(s, "= info"),
        other => panic!("unexpected {:?}", other),
    }
    match EnvConfig::parse("info,x=warn, trace") {
        Err(EnvParseError::DuplicateGlobalLevel(s)) => assert_eq!(s, "trace"),
        other => panic!("unexpected {:?}", other),
    }
    match EnvConfig::from_env("MY_LOG", EnvLookup::NotUnicode) {
        Some(Err(EnvParseError::InvalidUnicode(s))) => assert_eq!(s, "MY_LOG"),
        other => panic!("unexpected {:?}", other),
    }
}

#[test]
fn parse_skips_empty_directives_and_stops_at_first_error() {
    let config = EnvConfig::parse(",,info,,a::b = TRACE,").unwrap();
    assert_eq!(config.global_level(), Some(LevelFilter::Info));
    assert_eq!(config.module_levels(), &[("a::b".to_string(), LevelFilter::Trace)][..]);
    // The first refused directive decides the error.
    match EnvConfig::parse("=x,banana") {
        Err(EnvParseError::EmptyModule(s)) => assert_eq!(s, "=x"),
        other => panic!("unexpected {:?}", other),
    }
    assert!(EnvConfig::parse(" \t\n ").unwrap().module_levels().is_empty());
}

#[test]
fn error_messages() {
    assert_eq!(
        EnvParseError::InvalidLevel("banana".to_string()).message(),
        "invalid log level 'banana' (expected: trace, debug, info, warn, error, off)"
    );
    assert_eq!(
        EnvParseError::InvalidUnicode("RUST_LOG".to_string()).message(),
        "environment variable 'RUST_LOG' contains invalid Unicode"
    );
    assert_eq!(
        EnvParseError::EmptyModule("=debug".to_string()).message(),
        "empty module name in directive '=debug'"
    );
    assert_eq!(
        EnvParseError::DuplicateGlobalLevel("warn".to_string()).message(),
        "duplicate global level 'warn' (only one bare level is allowed)"
    );
}

#[test]
fn lookup_outcomes() {
    assert!(EnvConfig::from_env("RUST_LOG", EnvLookup::NotPresent).is_none());
    assert!(EnvConfig::from_default_env(EnvLookup::NotPresent).is_none());
    match EnvConfig::from_default_env(EnvLookup::NotUnicode) {
        Some(Err(EnvParseError::InvalidUnicode(s))) => assert_eq!(s, "RUST_LOG"),
        other => panic!("unexpected {:?}", other),
    }
    let found = EnvConfig::from_default_env(EnvLookup::Present("warn,db=trace".to_string()));
    let config = found.unwrap().unwrap();
    assert_eq!(config.global_level(), Some(LevelFilter::Warn));
    assert_eq!(EnvConfig::DEFAULT_ENV_VAR, "RUST_LOG");
}

#[test]
fn builder_applies_env_variable() {
    let logger = ProLoggerBuilder::new()
        .with_module_filter("db", LevelFilter::Warn)
        .with_env_var_opt("X", EnvLookup::Present("error,net=debug".to_string()))
        .unwrap()
        .build(false);
    assert_eq!(logger.filter().global_level(), LevelFilter::Error);
    let net = prologger::Metadata::new(prologger::Level::Debug, "net::tcp");
    assert!(logger.enabled(&net));
    let db = prologger::Metadata::new(prologger::Level::Info, "db");
    assert!(!logger.enabled(&db));

    let unset = ProLoggerBuilder::new().with_env_opt(EnvLookup::NotPresent).unwrap().build(false);
    assert_eq!(unset.filter().global_level(), LevelFilter::Info);

    let bad = ProLoggerBuilder::new().with_env_var_opt("X", EnvLookup::Present("loud".to_string()));
    match bad {
        Err(EnvParseError::InvalidLevel(s)) => assert_eq!(s, "loud"),
        _ => panic!("expected an invalid level"),
    }
    match ProLoggerBuilder::new().with_env_opt(EnvLookup::NotUnicode) {
        Err(EnvParseError::InvalidUnicode(s)) => assert_eq!(s, "RUST_LOG"),
        _ => panic!("expected invalid Unicode"),
    }

    let direct = ProLoggerBuilder::new()
        .with_env(EnvLookup::Present("debug".to_string()))
        .with_env_var("OTHER", EnvLookup::NotPresent)
        .build(false);
    assert_eq!(direct.filter().global_level(), LevelFilter::Debug);
}

#[test]
fn level_names_ignore_case() {
    assert_eq!(parse_level("tRaCe"), Some(LevelFilter::Trace));
    assert_eq!(parse_level("NONE"), Some(LevelFilter::Off));
    assert_eq!(parse_level("Error"), parse_level("error"));
    assert_eq!(parse_level("ERRORS"), None);
}

#[test]
fn env_modules_override_builder_modules() {
    let logger = ProLoggerBuilder::new()
        .with_module_filter("db", LevelFilter::Trace)
        .with_module_filter("net", LevelFilter::Trace)
        .with_env_var_opt("APP_LOG", EnvLookup::Present("db=error".to_string()))
        .unwrap()
        .build(false);
    assert!(!logger.enabled(&Metadata::new(Level::Warn, "db")));
    assert!(logger.enabled(&Metadata::new(Level::Trace, "net")));
}
