//! Log output sinks.
//!
//! Sinks are destinations where formatted log messages are written.
//! Multiple sinks can be active simultaneously to send logs to
//! different destinations.

use vstd::prelude::*;

use crate::formatter::Format;
use crate::record::Record;

pub mod console;
pub mod syslog;
pub mod worker;
pub mod x_grok;

verus! {

/// Trait for log output destinations.
///
/// A sink receives formatted log records and writes them to their
/// underlying destination (console, file, network, etc.).
pub trait Sink: Send + Sync {
    /// `text`, the formatted `record`, has been written to this sink. A sink
    /// that does not say how it writes makes no claim here.
    open spec fn wrote(&self, record: Record, text: Seq<char>) -> bool {
        true
    }

    /// Writes a formatted log record to this sink.
    fn write(&self, record: &Record, formatter: &dyn Format)
        ensures
            exists|text: Seq<char>| #[trigger] self.wrote(*record, text),
    ;

    /// Flushes any buffered output.
    fn flush(&self);
}

/// `record` has been written to `sink` (as some text).
pub open spec fn received(sink: SinkEntry, record: Record) -> bool {
    exists|text: Seq<char>| #[trigger] sink.wrote(record, text)
}

/// A sink held by a logger: the built-in console sink, or any other sink.
pub enum SinkEntry {
    Console(console::ConsoleSink),
    Custom(Box<dyn Sink>),
}

impl SinkEntry {
    /// Holds a sink of any kind.
    pub fn custom(sink: Box<dyn Sink>) -> (e: SinkEntry)
        ensures
            e == SinkEntry::Custom(sink),
    {
        let e = SinkEntry::Custom(sink);
        e
    }
}

impl Sink for SinkEntry {
    /// Written to the sink it holds.
    open spec fn wrote(&self, record: Record, text: Seq<char>) -> bool {
        match self {
            SinkEntry::Console(c) => c.wrote(record, text),
            SinkEntry::Custom(s) => s.wrote(record, text),
        }
    }

    fn write(&self, record: &Record, formatter: &dyn Format) {
        match self {
            SinkEntry::Console(s) => s.write(record, formatter),
            SinkEntry::Custom(s) => s.write(record, formatter),
        }
        proof {
            match self {
                SinkEntry::Console(c) => {
                    let text = choose|text: Seq<char>| c.wrote(*record, text);
                    assert(self.wrote(*record, text));
                },
                SinkEntry::Custom(c) => {
                    let text = choose|text: Seq<char>| c.wrote(*record, text);
                    assert(self.wrote(*record, text));
                },
            }
        }
    }

    fn flush(&self) {
        match self {
            SinkEntry::Console(s) => s.flush(),
            SinkEntry::Custom(s) => s.flush(),
        }
    }
}

/// Hands a record to every sink, in order, with the given formatter.
pub fn write_all(sinks: &Vec<SinkEntry>, record: &Record, formatter: &dyn Format)
    ensures
        forall|i: int| 0 <= i < sinks.len() ==> #[trigger] received(sinks@[i], *record),
{
    let mut i: usize = 0;
    while i < sinks.len()
        invariant
            i <= sinks.len(),
            forall|k: int| 0 <= k < i ==> #[trigger] received(sinks@[k], *record),
        decreases sinks.len() - i,
    {
        sinks[i].write(record, formatter);
        assert(received(sinks@[i as int], *record));
        i = i + 1;
    }
}

/// Flushes every sink, in order.
pub fn flush_all(sinks: &Vec<SinkEntry>) {
    let mut i: usize = 0;
    while i < sinks.len()
        invariant
            i <= sinks.len(),
        decreases sinks.len() - i,
    {
        sinks[i].flush();
        i = i + 1;
    }
}

/// A sink entry receives a record exactly when the sink it holds does: a
/// logger's `log` reaches the very sinks it was given.
pub proof fn law_entry_receives_as_its_sink(entry: SinkEntry, record: Record)
    ensures
        entry matches SinkEntry::Custom(s) ==> (received(entry, record) <==> exists|t: Seq<char>|
            #[trigger] s.wrote(record, t)),
        entry matches SinkEntry::Console(c) ==> (received(entry, record) <==> exists|t: Seq<char>|
            #[trigger] c.wrote(record, t)),
{
    match entry {
        SinkEntry::Custom(s) => {
            if received(entry, record) {
                let t = choose|t: Seq<char>| entry.wrote(record, t);
                assert(s.wrote(record, t));
            }
            if exists|t: Seq<char>| #[trigger] s.wrote(record, t) {
                let t = choose|t: Seq<char>| s.wrote(record, t);
                assert(entry.wrote(record, t));
            }
        },
        SinkEntry::Console(c) => {
            if received(entry, record) {
                let t = choose|t: Seq<char>| entry.wrote(record, t);
                assert(c.wrote(record, t));
            }
            if exists|t: Seq<char>| #[trigger] c.wrote(record, t) {
                let t = choose|t: Seq<char>| c.wrote(record, t);
                assert(entry.wrote(record, t));
            }
        },
    }
}

} // verus!
