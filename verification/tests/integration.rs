//! Integration tests for prologger.

use prologger::{FormatterType, LevelFilter, ProLoggerBuilder};

#[test]
fn test_builder_creates_logger() {
    let logger = ProLoggerBuilder::new()
        .with_level(LevelFilter::Debug)
        .with_console_default()
        .build(false);

    // Logger should have been created with one sink
    assert!(logger.describe().contains("ProLogger"));
}

#[test]
fn test_builder_default_adds_console_sink() {
    let logger = ProLoggerBuilder::new().build(false);
    // Default build should add a console sink
    assert!(logger.describe().contains("sinks_count: 1"));
}

#[test]
fn test_formatter_types() {
    // Pretty formatter
    let logger = ProLoggerBuilder::new()
        .with_formatter(FormatterType::Pretty)
        .build(false);
    assert!(logger.describe().contains("ProLogger"));

    // Compact formatter — build a new one since we can't reuse
    let logger = ProLoggerBuilder::new()
        .with_formatter(FormatterType::Compact)
        .build(false);
    assert!(logger.describe().contains("ProLogger"));
}

#[test]
fn test_json_formatter_type() {
    let logger = ProLoggerBuilder::new()
        .with_formatter(FormatterType::Json)
        .build(false);
    assert!(logger.describe().contains("ProLogger"));
}

#[test]
fn test_module_filter() {
    let logger = ProLoggerBuilder::new()
        .with_level(LevelFilter::Info)
        .with_module_filter("noisy_lib", LevelFilter::Error)
        .build(false);

    // The logger should have the filter configured
    assert!(logger.describe().contains("ProLogger"));
}

#[test]
fn test_multi_sink() {
    let logger = ProLoggerBuilder::new()
        .with_console_default()
        .with_console_default() // Two console sinks
        .build(false);

    assert!(logger.describe().contains("sinks_count: 2"));
}
