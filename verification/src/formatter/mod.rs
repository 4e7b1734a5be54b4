//! Log record formatters.
//!
//! Formatters control how log records are serialized into strings
//! before being written to a sink.

use vstd::prelude::*;

use crate::record::Record;

pub mod clock;
pub mod compact;
pub mod json;
pub mod pretty;

verus! {

/// Trait for formatting log records into strings.
///
/// Implementors of this trait control the output format of log messages.
pub trait Format: Send + Sync {
    /// `out` is a text this formatter gives for `record`. A formatter that
    /// does not say what it gives makes no claim here.
    open spec fn formats(&self, record: Record, out: Seq<char>) -> bool {
        true
    }

    /// Formats a log record into a string.
    ///
    /// The returned string should include a trailing newline if appropriate.
    fn format(&self, record: &Record) -> (s: String)
        ensures
            self.formats(*record, s@),
    ;
}

} // verus!

verus! {

/// Available built-in formatter types.
#[derive(Debug, Clone, Copy, PartialEq, Eq, Structural)]
pub enum FormatterType {
    /// Human-readable format with timestamps and optional colors.
    Pretty,
    /// Minimal single-character level prefix format.
    Compact,
    /// Machine-readable JSON format.
    Json,
}

/// One of the built-in formatters.
#[derive(Debug, Clone, Copy)]
pub enum BuiltinFormatter {
    Pretty(pretty::PrettyFormatter),
    Compact(compact::CompactFormatter),
    Json(json::JsonFormatter),
}

impl BuiltinFormatter {
    /// The formatter type this formatter is of.
    pub open spec fn kind(self) -> FormatterType {
        match self {
            BuiltinFormatter::Pretty(_) => FormatterType::Pretty,
            BuiltinFormatter::Compact(_) => FormatterType::Compact,
            BuiltinFormatter::Json(_) => FormatterType::Json,
        }
    }

    /// Whether this formatter colors its output.
    pub open spec fn colored(self) -> bool {
        match self {
            BuiltinFormatter::Pretty(p) => p.colored(),
            _ => false,
        }
    }

    /// `out` is what this formatter writes for `record`: the compact line,
    /// or the pretty or JSON line stamped with some time.
    pub open spec fn renders(self, record: Record, out: Seq<char>) -> bool {
        match self {
            BuiltinFormatter::Pretty(p) => exists|secs: u64, millis: u32|
                #[trigger] pretty::pretty_at(record, p.colored(), secs, millis, out),
            BuiltinFormatter::Compact(_) => out == compact::compact_line(record.level, record.message@),
            BuiltinFormatter::Json(_) => exists|secs: u64, millis: u32|
                #[trigger] json::json_at(record, secs, millis, out),
        }
    }
}

impl Format for BuiltinFormatter {
    /// The text of the built-in formatter it is.
    open spec fn formats(&self, record: Record, out: Seq<char>) -> bool {
        match *self {
            BuiltinFormatter::Pretty(p) => p.formats(record, out),
            BuiltinFormatter::Compact(c) => c.formats(record, out),
            BuiltinFormatter::Json(j) => j.formats(record, out),
        }
    }

    fn format(&self, record: &Record) -> (s: String)
        ensures
            self.renders(*record, s@),
    {
        match self {
            BuiltinFormatter::Pretty(f) => f.format(record),
            BuiltinFormatter::Compact(f) => f.format(record),
            BuiltinFormatter::Json(f) => f.format(record),
        }
    }
}

/// Creates a formatter from a formatter type; only the pretty formatter
/// uses color.
pub fn create_formatter(formatter_type: FormatterType, use_color: bool) -> (f: BuiltinFormatter)
    ensures
        f.kind() == formatter_type,
        f.colored() == (formatter_type == FormatterType::Pretty && use_color),
{
    match formatter_type {
        FormatterType::Pretty => BuiltinFormatter::Pretty(pretty::PrettyFormatter::new(use_color)),
        FormatterType::Compact => BuiltinFormatter::Compact(compact::CompactFormatter),
        FormatterType::Json => BuiltinFormatter::Json(json::JsonFormatter),
    }
}

} // verus!
