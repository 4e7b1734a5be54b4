use prologger::formatter::compact::CompactFormatter;
use prologger::formatter::json::JsonFormatter;
use prologger::formatter::pretty::{days_to_date, PrettyFormatter};
use prologger::formatter::{create_formatter, BuiltinFormatter, Format, FormatterType};
use prologger::{Level, Record};

#[test]
fn test_compact_format() {
    let formatter = CompactFormatter;
    let record = Record::new(Level::Warn, "test", "something happened");

    let output = formatter.format(&record);
    assert_eq!(output, "W: something happened\n");
}

#[test]
fn test_all_levels() {
    let formatter = CompactFormatter;
    let levels = [
        (Level::Error, 'E'),
        (Level::Warn, 'W'),
        (Level::Info, 'I'),
        (Level::Debug, 'D'),
        (Level::Trace, 'T'),
    ];

    for (level, expected_char) in levels {
        let record = Record::new(level, "test", "msg");

        let output = formatter.format(&record);
        assert!(output.starts_with(expected_char));
    }
}

#[test]
fn test_json_format_is_valid_json() {
    let formatter = JsonFormatter;
    let record = Record::new(Level::Info, "test_mod", "test message");

    let output = formatter.format(&record);
    let parsed: serde_json::Value = serde_json::from_str(output.trim()).unwrap();

    assert_eq!(parsed["level"], "INFO");
    assert_eq!(parsed["target"], "test_mod");
    assert_eq!(parsed["message"], "test message");
    assert!(parsed["timestamp"].is_string());
}

#[test]
fn test_json_format_special_characters() {
    let formatter = JsonFormatter;
    let record = Record::new(Level::Error, "test", "message with \"quotes\" and \\backslash");

    let output = formatter.format(&record);
    // Should be valid JSON even with special characters
    let parsed: Result<serde_json::Value, _> = serde_json::from_str(output.trim());
    assert!(parsed.is_ok());
}

#[test]
fn test_days_to_date_epoch() {
    let (y, m, d) = days_to_date(0);
    assert_eq!((y, m, d), (1970, 1, 1));
}

#[test]
fn test_days_to_date_known_date() {
    // 2024-01-01 = 19723 days since epoch
    let (y, m, d) = days_to_date(19723);
    assert_eq!((y, m, d), (2024, 1, 1));
}

#[test]
fn test_pretty_format_no_color() {
    let formatter = PrettyFormatter::new(false);
    let record = Record::new(Level::Info, "test_mod", "hello world");

    let output = formatter.format(&record);
    assert!(output.contains("INFO"));
    assert!(output.contains("[test_mod]"));
    assert!(output.contains("hello world"));
    assert!(output.ends_with('\n'));
}

// ─── Further cases ────────────────────────────────────────────────────────

#[test]
fn days_to_date_calendar_edges() {
    assert_eq!(days_to_date(59), (1970, 3, 1));
    assert_eq!(days_to_date(365), (1971, 1, 1));
    // 2000 is a leap year (divisible by 400): 2000-02-29 exists.
    assert_eq!(days_to_date(11016), (2000, 2, 29));
    assert_eq!(days_to_date(11017), (2000, 3, 1));
    // 2100 is not a leap year.
    assert_eq!(days_to_date(47540), (2100, 2, 28));
    assert_eq!(days_to_date(47541), (2100, 3, 1));
    assert_eq!(days_to_date(19722), (2023, 12, 31));
}

#[test]
fn pretty_format_at_fixed_time() {
    let formatter = PrettyFormatter::new(false);
    let record = Record::new(Level::Warn, "my_app::db", "Connection pool running low");
    // 2024-01-01 00:00:00 UTC plus 13:05:09.042
    let secs = 19723 * 86400 + 13 * 3600 + 5 * 60 + 9;
    let (line, _) = formatter.render_at(&record, secs, 42);
    assert_eq!(
        line,
        "2024-01-01 13:05:09.042 WARN  [my_app::db] Connection pool running low\n"
    );
    let (ts, _) = formatter.timestamp_at(0, 7);
    assert_eq!(ts, "1970-01-01 00:00:00.007");
}

#[test]
fn pretty_format_with_color() {
    let formatter = PrettyFormatter::new(true);
    let record = Record::new(Level::Error, "api", "boom");
    let (line, _) = formatter.render_at(&record, 0, 0);
    assert_eq!(
        line,
        "\x1b[90m1970-01-01 00:00:00.000\x1b[0m \x1b[1m\x1b[91mERROR\x1b[0m \x1b[36m[api]\x1b[0m boom\n"
    );
    assert_eq!(formatter.format_level(Level::Info), "\x1b[1m\x1b[92mINFO \x1b[0m");
    assert_eq!(PrettyFormatter::new(false).format_level(Level::Info), "INFO ");
}

#[test]
fn json_format_at_fixed_time_exact() {
    let mut record = Record::new(Level::Info, "test_mod", "tab\there \"q\" \\ \u{1}");
    record.module = Some("my_app::api".to_string());
    record.file = Some("src/api.rs".to_string());
    record.line = Some(42);
    let (line, _) = JsonFormatter.render_at(&record, 19723 * 86400 + 1, 5);
    assert_eq!(
        line,
        "{\"timestamp\":\"2024-01-01T00:00:01.005Z\",\"level\":\"INFO\",\"target\":\"test_mod\",\
         \"message\":\"tab\\there \\\"q\\\" \\\\ \\u0001\"}\n"
    );
    let parsed: serde_json::Value = serde_json::from_str(line.trim()).unwrap();
    assert_eq!(parsed["message"], "tab\there \"q\" \\ \u{1}");
    assert!(parsed.get("line").is_none());
    assert!(parsed.get("module_path").is_none());
}

#[test]
fn json_optional_fields_are_omitted() {
    let record = Record::new(Level::Debug, "t", "m");
    let (line, _) = JsonFormatter.render_at(&record, 0, 0);
    assert_eq!(
        line,
        "{\"timestamp\":\"1970-01-01T00:00:00.000Z\",\"level\":\"DEBUG\",\"target\":\"t\",\"message\":\"m\"}\n"
    );
    assert_eq!(
        JsonFormatter::error_line("oops"),
        "{\"error\":\"failed to serialize log record\",\"detail\":\"oops\"}\n"
    );
}

#[test]
fn create_formatter_kinds() {
    let record = Record::new(Level::Info, "t", "m");
    match create_formatter(FormatterType::Compact, true) {
        BuiltinFormatter::Compact(f) => assert_eq!(f.format(&record), "I: m\n"),
        other => panic!("unexpected {:?}", other),
    }
    assert!(matches!(create_formatter(FormatterType::Json, true), BuiltinFormatter::Json(_)));
    match create_formatter(FormatterType::Pretty, true) {
        BuiltinFormatter::Pretty(p) => assert!(p.format(&record).starts_with("\x1b[90m")),
        other => panic!("unexpected {:?}", other),
    }
    assert_eq!(CompactFormatter::level_char(Level::Trace), 'T');
}

#[test]
fn json_strings_read_back_unchanged() {
    let message = "tab\there \"quoted\" back\\slash\nbell\u{7} é ✓";
    let mut record = Record::new(Level::Warn, "a::b", message);
    record.file = Some("src/x\"y.rs".to_string());
    let (line, _) = JsonFormatter.render_at(&record, 1_700_000_000, 5);
    let parsed: serde_json::Value = serde_json::from_str(line.trim()).unwrap();
    assert_eq!(parsed["message"], message);
    assert!(parsed.get("file").is_none());
    assert_eq!(parsed["target"], "a::b");
    assert!(line.contains("\\u0007"));
}
