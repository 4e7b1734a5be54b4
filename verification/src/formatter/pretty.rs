//! Pretty formatter — human-readable, colorized log output.
//!
//! Produces output like:
//! ```text
//! 2026-06-05 20:15:00.123 INFO  [my_app::api] Request processed successfully
//! 2026-06-05 20:15:00.456 WARN  [my_app::db]  Connection pool running low
//! 2026-06-05 20:15:00.789 ERROR [my_app::api] Failed to process request
//! ```

use vstd::prelude::*;

use super::clock::{clock_reading, date_of, law_timestamp_reads_back, read_clock, read_timestamp, push_timestamp, render_timestamp, time_parts};
use super::Format;
use crate::color::{colorize, colorized, escape, level_color, level_color_spec, reset_seq, AnsiColor};
use crate::level::Level;
use crate::record::Record;
use crate::text::{push_char, push_space_padded, space_pad};

pub use super::clock::days_to_date;

verus! {

/// The level name, padded to five characters, colored when `use_color`.
pub open spec fn pretty_level(level: Level, use_color: bool) -> Seq<char> {
    let padded = space_pad(level.name(), 5);
    if use_color {
        colorized(padded, level_color_spec(level), true)
    } else {
        padded
    }
}

/// The pretty line for a record, given its rendered timestamp.
pub open spec fn pretty_line(record: Record, timestamp: Seq<char>, use_color: bool) -> Seq<char> {
    let level = pretty_level(record.level, use_color);
    if use_color {
        colorized(timestamp, AnsiColor::Gray, false) + seq![' '] + level + seq![' '] + colorized(
            seq!['['] + record.target@ + seq![']'],
            AnsiColor::Cyan,
            false,
        ) + seq![' '] + record.message@ + seq!['\n']
    } else {
        timestamp + seq![' '] + level + seq![' ', '['] + record.target@ + seq![']', ' ']
            + record.message@ + seq!['\n']
    }
}

/// `out` is the pretty line of `record` stamped `secs` seconds and
/// `millis` (below 1000) milliseconds after the epoch.
pub open spec fn pretty_at(record: Record, use_color: bool, secs: u64, millis: u32, out: Seq<char>) -> bool {
    &&& millis < 1000
    &&& exists|date: (u64, u64, u64)|
        #[trigger] date_of(secs, date) && out == pretty_line(
            record,
            render_timestamp(date, time_parts(secs), millis, ' '),
            use_color,
        )
}

/// A human-readable formatter with optional ANSI color output.
#[derive(Debug, Clone, Copy)]
pub struct PrettyFormatter {
    use_color: bool,
}

impl PrettyFormatter {
    /// Whether this formatter colors its output.
    pub closed spec fn colored(&self) -> bool {
        self.use_color
    }

    /// Creates a new pretty formatter.
    ///
    /// If `use_color` is true, log levels and metadata are colorized
    /// using ANSI escape codes.
    pub fn new(use_color: bool) -> (f: Self)
        ensures
            f.colored() == use_color,
    {
        Self { use_color }
    }

    /// Formats the timestamp `secs` seconds and `millis` milliseconds after
    /// the epoch as `YYYY-MM-DD hh:mm:ss.mmm`.
    pub fn timestamp_at(&self, secs: u64, millis: u32) -> (r: (String, Ghost<(u64, u64, u64)>))
        ensures
            date_of(secs, r.1@),
            r.0@ == render_timestamp(r.1@, time_parts(secs), millis, ' '),
    {
        let mut s = String::new();
        let date = push_timestamp(&mut s, secs, millis, ' ');
        (s, Ghost(date))
    }

    /// Formats the level string, padded to 5 characters.
    pub fn format_level(&self, level: Level) -> (s: String)
        ensures
            s@ == pretty_level(level, self.colored()),
    {
        let mut padded = String::new();
        push_space_padded(&mut padded, level.as_str(), 5);
        if self.use_color {
            colorize(padded.as_str(), level_color(level), true)
        } else {
            padded
        }
    }

    /// Formats a record stamped `secs` seconds and `millis` milliseconds
    /// after the epoch, and returns the date it used.
    pub fn render_at(&self, record: &Record, secs: u64, millis: u32) -> (r: (String, Ghost<(u64, u64, u64)>))
        ensures
            date_of(secs, r.1@),
            r.0@ == pretty_line(
                *record,
                render_timestamp(r.1@, time_parts(secs), millis, ' '),
                self.colored(),
            ),
    {
        let (timestamp, date) = self.timestamp_at(secs, millis);
        let level = self.format_level(record.level);
        let mut s = String::new();
        if self.use_color {
            let ts = colorize(timestamp.as_str(), AnsiColor::Gray, false);
            let mut bracketed = String::new();
            push_char(&mut bracketed, '[');
            bracketed.append(record.target.as_str());
            push_char(&mut bracketed, ']');
            let tgt = colorize(bracketed.as_str(), AnsiColor::Cyan, false);
            s.append(ts.as_str());
            push_char(&mut s, ' ');
            s.append(level.as_str());
            push_char(&mut s, ' ');
            s.append(tgt.as_str());
            push_char(&mut s, ' ');
            s.append(record.message.as_str());
            push_char(&mut s, '\n');
        } else {
            s.append(timestamp.as_str());
            push_char(&mut s, ' ');
            s.append(level.as_str());
            push_char(&mut s, ' ');
            push_char(&mut s, '[');
            s.append(record.target.as_str());
            push_char(&mut s, ']');
            push_char(&mut s, ' ');
            s.append(record.message.as_str());
            push_char(&mut s, '\n');
        }
        assert(s@ =~= pretty_line(*record, timestamp@, self.use_color));
        (s, date)
    }
}

impl Format for PrettyFormatter {
    /// The pretty line of the record, stamped with a reading of the system
    /// clock.
    open spec fn formats(&self, record: Record, out: Seq<char>) -> bool {
        exists|secs: u64, millis: u32|
            #![trigger pretty_at(record, self.colored(), secs, millis, out)]
            clock_reading(secs, millis) && pretty_at(record, self.colored(), secs, millis, out)
    }

    /// The pretty line of the record, stamped with the time the system clock
    /// reads during the call.
    fn format(&self, record: &Record) -> (s: String)
        ensures
            exists|secs: u64, millis: u32|
                #![trigger pretty_at(*record, self.colored(), secs, millis, s@)]
                clock_reading(secs, millis) && pretty_at(
                    *record,
                    self.colored(),
                    secs,
                    millis,
                    s@,
                ),
    {
        let (secs, millis) = read_clock();
        let (s, date) = self.render_at(record, secs, millis);
        assert(pretty_at(*record, self.colored(), secs, millis, s@)) by {
            assert(date_of(secs, date@));
        }
        s
    }
}

/// Where the timestamp starts in a pretty line: after the gray color code
/// when the line is colored.
pub open spec fn pretty_stamp_start(use_color: bool) -> int {
    if use_color {
        5
    } else {
        0
    }
}

/// A pretty line carries the clock reading it was stamped with: its
/// timestamp reads back as those seconds and milliseconds (for readings
/// before the end of year 9999). With `format`, whose line is stamped with
/// a reading of the system clock, the line tells the time of the call.
pub proof fn law_pretty_line_carries_reading(
    record: Record,
    use_color: bool,
    secs: u64,
    millis: u32,
    out: Seq<char>,
)
    requires
        pretty_at(record, use_color, secs, millis, out),
        secs < 253402300800,
    ensures
        read_timestamp(out.subrange(pretty_stamp_start(use_color), pretty_stamp_start(use_color) + 23))
            == (secs as int, millis as int),
{
    let date = choose|date: (u64, u64, u64)|
        #[trigger] date_of(secs, date) && out == pretty_line(
            record,
            render_timestamp(date, time_parts(secs), millis, ' '),
            use_color,
        );
    law_timestamp_reads_back(secs, millis, date, ' ');
    lemma_pretty_line_starts_with(record, render_timestamp(date, time_parts(secs), millis, ' '), use_color);
}

/// The timestamp of a pretty line stands at `pretty_stamp_start`.
#[verifier::spinoff_prover]
proof fn lemma_pretty_line_starts_with(record: Record, t: Seq<char>, use_color: bool)
    requires
        t.len() == 23,
    ensures
        pretty_line(record, t, use_color).subrange(
            pretty_stamp_start(use_color),
            pretty_stamp_start(use_color) + 23,
        ) == t,
{
    let level = pretty_level(record.level, use_color);
    if use_color {
        let head = escape(AnsiColor::Gray.code_spec());
        let rest = reset_seq() + seq![' '] + level + seq![' '] + colorized(
            seq!['['] + record.target@ + seq![']'],
            AnsiColor::Cyan,
            false,
        ) + seq![' '] + record.message@ + seq!['\n'];
        assert(head.len() == 5);
        assert(pretty_line(record, t, true) =~= head + t + rest);
        assert((head + t + rest).subrange(5, 28) =~= t);
    } else {
        let rest = seq![' '] + level + seq![' ', '['] + record.target@ + seq![']', ' '] + record.message@
            + seq!['\n'];
        assert(pretty_line(record, t, false) =~= t + rest);
        assert((t + rest).subrange(0, 23) =~= t);
    }
}

} // verus!
