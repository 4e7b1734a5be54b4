//! Compact formatter — minimal log output.
//!
//! Produces output like:
//! ```text
//! I: Request processed
//! W: Connection pool low
//! E: Request failed
//! ```

use vstd::prelude::*;

use super::Format;
use crate::level::Level;
use crate::record::Record;
use crate::text::push_char;

verus! {

/// The single-character prefix of each level.
pub open spec fn level_char_spec(level: Level) -> char {
    match level {
        Level::Error => 'E',
        Level::Warn => 'W',
        Level::Info => 'I',
        Level::Debug => 'D',
        Level::Trace => 'T',
    }
}

/// The compact line for a record: `<level char>: <message>\n`.
pub open spec fn compact_line(level: Level, message: Seq<char>) -> Seq<char> {
    seq![level_char_spec(level), ':', ' '] + message + seq!['\n']
}

/// A minimal formatter using single-character level prefixes.
///
/// Ideal for space-constrained environments or when log volume is high.
#[derive(Debug, Clone, Copy)]
pub struct CompactFormatter;

impl CompactFormatter {
    /// Returns the single-character prefix for a log level.
    pub fn level_char(level: Level) -> (c: char)
        ensures
            c == level_char_spec(level),
    {
        match level {
            Level::Error => 'E',
            Level::Warn => 'W',
            Level::Info => 'I',
            Level::Debug => 'D',
            Level::Trace => 'T',
        }
    }

    /// Formats a record as `<level char>: <message>` and a newline.
    pub fn render(&self, record: &Record) -> (s: String)
        ensures
            s@ == compact_line(record.level, record.message@),
    {
        let mut s = String::new();
        push_char(&mut s, Self::level_char(record.level));
        push_char(&mut s, ':');
        push_char(&mut s, ' ');
        s.append(record.message.as_str());
        push_char(&mut s, '\n');
        assert(s@ =~= compact_line(record.level, record.message@));
        s
    }
}

impl Format for CompactFormatter {
    /// The compact line of the record.
    open spec fn formats(&self, record: Record, out: Seq<char>) -> bool {
        out == compact_line(record.level, record.message@)
    }

    fn format(&self, record: &Record) -> (s: String)
        ensures
            s@ == compact_line(record.level, record.message@),
    {
        self.render(record)
    }
}

} // verus!
