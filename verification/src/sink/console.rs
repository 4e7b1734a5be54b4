//! Console sink — writes log output to stdout or stderr.
//!
//! By default, `Error` and `Warn` levels are written to stderr,
//! while all other levels go to stdout.

use std::io::Write;

use vstd::prelude::*;

use super::Sink;
use crate::formatter::Format;
use crate::level::Level;
use crate::record::Record;

verus! {

/// Determines which output stream to use.
#[derive(Debug, Clone, Copy, PartialEq, Eq, Structural)]
pub enum ConsoleTarget {
    /// Write all output to stdout.
    Stdout,
    /// Write all output to stderr.
    Stderr,
    /// Write errors/warnings to stderr, everything else to stdout.
    Mixed,
}

impl Default for ConsoleTarget {
    fn default() -> (t: Self)
        ensures
            t == ConsoleTarget::Mixed,
    {
        ConsoleTarget::Mixed
    }
}

/// One of the two console streams.
#[derive(Debug, Clone, Copy, PartialEq, Eq, Structural)]
pub enum ConsoleStream {
    Stdout,
    Stderr,
}

/// The stream a record of `level` goes to under `target`.
pub open spec fn stream_for_spec(target: ConsoleTarget, level: Level) -> ConsoleStream {
    match target {
        ConsoleTarget::Stdout => ConsoleStream::Stdout,
        ConsoleTarget::Stderr => ConsoleStream::Stderr,
        ConsoleTarget::Mixed => if level == Level::Error || level == Level::Warn {
            ConsoleStream::Stderr
        } else {
            ConsoleStream::Stdout
        },
    }
}

/// A sink that writes formatted log output to the console.
#[derive(Debug, Clone, Copy)]
pub struct ConsoleSink {
    target: ConsoleTarget,
}

impl View for ConsoleSink {
    type V = ConsoleTarget;

    closed spec fn view(&self) -> ConsoleTarget {
        self.target
    }
}

impl ConsoleSink {
    /// Creates a new console sink with the given target configuration.
    pub fn new(target: ConsoleTarget) -> (s: Self)
        ensures
            s@ == target,
    {
        Self { target }
    }

    /// Creates a console sink that writes everything to stdout.
    pub fn stdout() -> (s: Self)
        ensures
            s@ == ConsoleTarget::Stdout,
    {
        Self::new(ConsoleTarget::Stdout)
    }

    /// Creates a console sink that writes everything to stderr.
    pub fn stderr() -> (s: Self)
        ensures
            s@ == ConsoleTarget::Stderr,
    {
        Self::new(ConsoleTarget::Stderr)
    }

    /// Creates a console sink that splits output between stdout and stderr.
    pub fn mixed() -> (s: Self)
        ensures
            s@ == ConsoleTarget::Mixed,
    {
        Self::new(ConsoleTarget::Mixed)
    }

    /// The stream that records of `level` are written to.
    pub fn stream_for(&self, level: Level) -> (s: ConsoleStream)
        ensures
            s == stream_for_spec(self@, level),
    {
        match self.target {
            ConsoleTarget::Stdout => ConsoleStream::Stdout,
            ConsoleTarget::Stderr => ConsoleStream::Stderr,
            ConsoleTarget::Mixed => match level {
                Level::Error | Level::Warn => ConsoleStream::Stderr,
                _ => ConsoleStream::Stdout,
            },
        }
    }
}

impl Default for ConsoleSink {
    fn default() -> (s: Self)
        ensures
            s@ == ConsoleTarget::Mixed,
    {
        Self::mixed()
    }
}

/// Writes `text` to standard output (`std::io::stdout().write_all`),
/// ignoring failures. Nothing is stated of its effect.
#[verifier::external_body]
fn write_stdout(text: &str) {
    let _ = std::io::stdout().write_all(text.as_bytes());
}

/// Writes `text` to standard error (`std::io::stderr().write_all`),
/// ignoring failures. Nothing is stated of its effect.
#[verifier::external_body]
fn write_stderr(text: &str) {
    let _ = std::io::stderr().write_all(text.as_bytes());
}

/// Flushes standard output (`std::io::stdout().flush`), ignoring failures.
#[verifier::external_body]
fn flush_stdout() {
    let _ = std::io::stdout().flush();
}

/// Flushes standard error (`std::io::stderr().flush`), ignoring failures.
#[verifier::external_body]
fn flush_stderr() {
    let _ = std::io::stderr().flush();
}

/// `text` has been written to `stream` (by `write_stdout` or
/// `write_stderr`).
pub closed spec fn console_wrote(stream: ConsoleStream, text: Seq<char>) -> bool {
    match stream {
        ConsoleStream::Stdout => exists|t: &str| t@ == text && #[trigger] call_ensures(write_stdout, (t,), ()),
        ConsoleStream::Stderr => exists|t: &str| t@ == text && #[trigger] call_ensures(write_stderr, (t,), ()),
    }
}

impl Sink for ConsoleSink {
    /// `text` was written to the stream that records of its level go to.
    open spec fn wrote(&self, record: Record, text: Seq<char>) -> bool {
        console_wrote(stream_for_spec(self@, record.level), text)
    }

    /// Writes the formatter's text for the record to stderr when
    /// `stream_for` gives `Stderr`, to stdout otherwise.
    fn write(&self, record: &Record, formatter: &dyn Format)
        ensures
            exists|text: Seq<char>| #![trigger self.wrote(*record, text)]
                formatter.formats(*record, text) && self.wrote(*record, text),
    {
        let formatted = formatter.format(record);
        let text = formatted.as_str();
        match self.stream_for(record.level) {
            ConsoleStream::Stderr => write_stderr(text),
            ConsoleStream::Stdout => write_stdout(text),
        }
        assert(formatter.formats(*record, formatted@));
        assert(self.wrote(*record, formatted@));
        assert(exists|t: Seq<char>| #[trigger] self.wrote(*record, t));
    }

    fn flush(&self) {
        flush_stdout();
        flush_stderr();
    }
}

/// Where a console sink writes: to stderr for a sink set to `Stderr`, and
/// for errors and warnings of a mixed sink; to stdout otherwise. A console
/// sink's `write` puts the formatted record on exactly that stream.
pub proof fn law_console_stream(target: ConsoleTarget, level: Level)
    ensures
        stream_for_spec(target, level) == ConsoleStream::Stderr <==> (target == ConsoleTarget::Stderr || (
        target == ConsoleTarget::Mixed && (level == Level::Error || level == Level::Warn))),
        stream_for_spec(target, level) == ConsoleStream::Stdout <==> !(stream_for_spec(target, level)
            == ConsoleStream::Stderr),
        stream_for_spec(ConsoleTarget::Mixed, Level::Info) == ConsoleStream::Stdout,
{
}

} // verus!
