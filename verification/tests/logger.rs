use std::sync::{Arc, Mutex};

use prologger::color::{colorize, level_color, supports_color_given, AnsiColor};
use prologger::event::FieldVisitor;
use prologger::formatter::Format;
use prologger::sink::console::{ConsoleSink, ConsoleStream, ConsoleTarget};
use prologger::sink::syslog::{syslog_severity, SyslogSeverity};
use prologger::sink::worker::{handle_message, OwnedRecord, WorkerAction, WorkerMessage};
use prologger::sink::x_grok::{x_grok_authorization, x_grok_payload};
use prologger::sink::{Sink, SinkEntry};
use prologger::{ColorMode, FormatterType, Level, LevelFilter, Metadata, ProLogger, ProLoggerBuilder, Record};

/// A sink that keeps what it is given.
struct Collect(Arc<Mutex<Vec<String>>>);

impl Sink for Collect {
    fn write(&self, record: &Record, formatter: &dyn Format) {
        self.0.lock().unwrap().push(formatter.format(record));
    }

    fn flush(&self) {}
}

#[test]
fn logger_dispatches_only_records_that_pass() {
    let seen = Arc::new(Mutex::new(Vec::new()));
    let logger = ProLoggerBuilder::new()
        .with_level(LevelFilter::Warn)
        .with_module_filter("chatty", LevelFilter::Trace)
        .with_formatter(FormatterType::Compact)
        .with_sink(Box::new(Collect(seen.clone())))
        .build(false);
    assert!(logger.log(&Record::new(Level::Error, "app", "bad")));
    assert!(!logger.log(&Record::new(Level::Info, "app", "quiet")));
    assert!(logger.log(&Record::new(Level::Trace, "chatty::x", "loud")));
    logger.flush();
    assert_eq!(*seen.lock().unwrap(), vec!["E: bad\n".to_string(), "T: loud\n".to_string()]);
    assert!(logger.enabled(&Metadata::new(Level::Warn, "app")));
    assert!(!logger.enabled(&Metadata::new(Level::Info, "app")));
}

#[test]
fn logger_description_and_async() {
    let logger = ProLogger::builder().with_level(LevelFilter::Debug).build(true);
    assert_eq!(
        logger.describe(),
        "ProLogger { filter: Filter { global_level: Debug, module_levels: {} }, sinks_count: 1 }"
    );
    let modules = ProLogger::builder()
        .with_module_filter("hyper", LevelFilter::Warn)
        .with_module_filter("a\"b\t\u{1b}", LevelFilter::Trace)
        .with_module_filter("hyper", LevelFilter::Off)
        .build(false);
    assert_eq!(
        modules.describe(),
        "ProLogger { filter: Filter { global_level: Info, module_levels: \
         {\"a\\\"b\\t\\u{1b}\": Trace, \"hyper\": Off} }, sinks_count: 1 }"
    );
    assert!(modules.describe().contains(&format!("{:?}: Trace", "a\"b\t\u{1b}")));
    let mut logger = ProLoggerBuilder::new()
        .with_console(ConsoleTarget::Stdout)
        .with_console(ConsoleTarget::Stderr)
        .with_console_default()
        .with_async(16)
        .build(false);
    assert_eq!(logger.sinks_count(), 1);
    assert_eq!(logger.async_capacity(), Some(16));
    let sinks = logger.take_sinks();
    assert_eq!(sinks.len(), 3);
    assert!(matches!(sinks[0], SinkEntry::Console(_)));
    assert_eq!(logger.sinks_count(), 0);
    logger.add_sink(SinkEntry::custom(Box::new(ConsoleSink::stdout())));
    assert_eq!(logger.sinks_count(), 1);
}

#[test]
fn console_routing() {
    let mixed = ConsoleSink::mixed();
    assert_eq!(mixed.stream_for(Level::Error), ConsoleStream::Stderr);
    assert_eq!(mixed.stream_for(Level::Warn), ConsoleStream::Stderr);
    assert_eq!(mixed.stream_for(Level::Info), ConsoleStream::Stdout);
    assert_eq!(ConsoleSink::stdout().stream_for(Level::Error), ConsoleStream::Stdout);
    assert_eq!(ConsoleSink::stderr().stream_for(Level::Trace), ConsoleStream::Stderr);
    assert_eq!(ConsoleSink::new(ConsoleTarget::default()).stream_for(Level::Debug), ConsoleStream::Stdout);
}

#[test]
fn colors() {
    assert_eq!(colorize("x", AnsiColor::Red, false), "\x1b[31mx\x1b[0m");
    assert_eq!(colorize("x", level_color(Level::Warn), true), "\x1b[1m\x1b[93mx\x1b[0m");
    assert_eq!(level_color(Level::Trace), AnsiColor::Gray);
    assert!(ColorMode::Always.should_color(false));
    assert!(!ColorMode::Never.should_color(true));
    assert!(ColorMode::Auto.should_color(true));
    assert!(!ColorMode::default().should_color(false));
    assert!(supports_color_given(false, Some("xterm-256color")));
    assert!(!supports_color_given(false, Some("dumb")));
    assert!(!supports_color_given(true, Some("xterm")));
    assert!(!supports_color_given(false, None));
}

#[test]
fn event_fields_become_the_message() {
    let mut v = FieldVisitor::new();
    v.record_field("user", "42");
    v.record_field("message", "logged in");
    v.record_field("ok", "true");
    assert_eq!(v.finish(), "logged in user=42 ok=true");
    let mut only_fields = FieldVisitor::new();
    only_fields.record_field("a", "1");
    assert_eq!(only_fields.finish(), "a=1");
    let mut only_message = FieldVisitor::new();
    only_message.record_field("message", "hi");
    assert_eq!(only_message.finish(), "hi");
    assert_eq!(FieldVisitor::new().finish(), "");
}

#[test]
fn x_grok_request() {
    let body = x_grok_payload("I: line \"one\"\n").unwrap();
    assert_eq!(
        body,
        "{\"messages\":[{\"content\":\"You are a log analyzer. Please ingest this log silently.\",\
         \"role\":\"system\"},{\"content\":\"I: line \\\"one\\\"\\n\",\"role\":\"user\"}],\"model\":\"grok-2\"}"
    );
    let parsed: serde_json::Value = serde_json::from_str(&body).unwrap();
    assert_eq!(parsed["messages"][1]["content"], "I: line \"one\"\n");
    assert_eq!(parsed["model"], "grok-2");
    assert_eq!(x_grok_authorization("k"), "Bearer k");
}

#[test]
fn builder_settings_reach_the_logger() {
    let logger = ProLoggerBuilder::default()
        .with_color(ColorMode::Never)
        .with_formatter(FormatterType::Json)
        .build(true);
    assert_eq!(logger.sinks_count(), 1);
    assert_eq!(logger.filter().global_level(), LevelFilter::Info);
}

#[test]
fn syslog_severity_maps_trace_to_debug() {
    assert_eq!(syslog_severity(Level::Error), SyslogSeverity::Error);
    assert_eq!(syslog_severity(Level::Warn), SyslogSeverity::Warning);
    assert_eq!(syslog_severity(Level::Info), SyslogSeverity::Informational);
    assert_eq!(syslog_severity(Level::Debug), SyslogSeverity::Debug);
    assert_eq!(syslog_severity(Level::Trace), SyslogSeverity::Debug);
}

#[test]
fn later_module_filter_replaces_earlier_one() {
    let logger = ProLoggerBuilder::new()
        .with_module_filter("db", LevelFilter::Trace)
        .with_module_filter("net", LevelFilter::Debug)
        .with_module_filter("db", LevelFilter::Error)
        .build(false);
    assert!(!logger.enabled(&Metadata::new(Level::Warn, "db")));
    assert!(logger.enabled(&Metadata::new(Level::Error, "db::pool")));
    assert!(logger.enabled(&Metadata::new(Level::Debug, "net")));
}

#[test]
fn worker_writes_preformatted_text_and_stops_on_shutdown() {
    let seen = Arc::new(Mutex::new(Vec::new()));
    let sinks = vec![SinkEntry::custom(Box::new(Collect(seen.clone())))];
    let record = Record::new(Level::Info, "app", "hello");
    let compact = prologger::formatter::compact::CompactFormatter;
    let owned = OwnedRecord::from_record(&record, &compact);
    assert_eq!(owned.formatted, "I: hello\n");
    assert_eq!(owned.record.message, "");
    assert_eq!(owned.record.target, "app");
    assert_eq!(handle_message(&sinks, WorkerMessage::Log(owned)), WorkerAction::Continue);
    assert_eq!(seen.lock().unwrap().clone(), vec!["I: hello\n".to_string()]);
    assert_eq!(handle_message(&sinks, WorkerMessage::Flush), WorkerAction::Acknowledge);
    assert_eq!(handle_message(&sinks, WorkerMessage::Shutdown), WorkerAction::Stop);
}
