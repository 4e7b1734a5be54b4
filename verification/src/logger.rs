//! Core logger implementation.
//!
//! Contains the `ProLogger` struct, which filters log records and dispatches
//! the ones that pass to its sinks through its formatter.

use vstd::prelude::*;

use crate::builder::ProLoggerBuilder;
use crate::filter::{filter_allows, filter_debug, Filter, FilterSpec};
use crate::formatter::{BuiltinFormatter, Format};
use crate::level::LevelFilter;
use crate::record::{Metadata, Record};
use crate::sink::{flush_all, received, write_all, SinkEntry};
use crate::text::{decimal, push_decimal};

verus! {

/// The formatter a logger uses: a built-in one or one supplied by the user.
pub enum ActiveFormatter {
    Builtin(BuiltinFormatter),
    Custom(Box<dyn Format>),
}

impl Format for ActiveFormatter {
    /// The text of the built-in formatter, or of the custom formatter, that
    /// it holds.
    open spec fn formats(&self, record: Record, out: Seq<char>) -> bool {
        match *self {
            ActiveFormatter::Builtin(b) => b.formats(record, out),
            ActiveFormatter::Custom(c) => c.formats(record, out),
        }
    }

    /// A built-in formatter renders the record as `BuiltinFormatter::renders`
    /// says; a custom formatter renders it as its implementation does.
    fn format(&self, record: &Record) -> (s: String)
        ensures
            self matches ActiveFormatter::Builtin(b) ==> b.renders(*record, s@),
    {
        match self {
            ActiveFormatter::Builtin(f) => f.format(record),
            ActiveFormatter::Custom(f) => f.format(record),
        }
    }
}

/// The text `describe` gives for a logger whose filter has the global
/// level `global` and the module settings `settings`, and that hands
/// records to `sinks_count` sinks.
pub open spec fn description(
    global: LevelFilter,
    settings: Seq<(Seq<char>, LevelFilter)>,
    sinks_count: nat,
) -> Seq<char> {
    seq!['P', 'r', 'o', 'L', 'o', 'g', 'g', 'e', 'r', ' ', '{', ' ', 'f', 'i', 'l', 't', 'e', 'r', ':', ' ']
        + filter_debug(global, settings) + seq![
        ',', ' ', 's', 'i', 'n', 'k', 's', '_', 'c', 'o', 'u', 'n', 't', ':', ' ',
    ] + decimal(sinks_count) + seq![' ', '}']
}

/// A configured logger instance ready to process log records.
///
/// Use [`ProLoggerBuilder`] to construct instances.
pub struct ProLogger {
    /// The filter engine for level-based filtering.
    filter: Filter,
    /// The formatter for serializing log records.
    formatter: ActiveFormatter,
    /// The output sinks where formatted records are written.
    sinks: Vec<SinkEntry>,
    /// When set, the sinks are to be driven by a background worker with a
    /// queue of this capacity.
    async_capacity: Option<usize>,
}

impl ProLogger {
    /// The filter of the logger.
    pub closed spec fn filter_spec(&self) -> FilterSpec {
        self.filter@
    }

    /// The module settings of the logger's filter, in the order they were
    /// made.
    pub closed spec fn filter_settings(&self) -> Seq<(Seq<char>, LevelFilter)> {
        self.filter.settings()
    }

    /// The formatter of the logger.
    pub closed spec fn formatter_spec(&self) -> ActiveFormatter {
        self.formatter
    }

    /// The sinks of the logger, in order.
    pub closed spec fn sinks_spec(&self) -> Seq<SinkEntry> {
        self.sinks@
    }

    /// The queue capacity of the background worker, if the logger has one.
    pub closed spec fn async_spec(&self) -> Option<usize> {
        self.async_capacity
    }

    /// The number of sinks records are handed to: the background worker
    /// counts as one sink.
    pub open spec fn sinks_count_spec(&self) -> nat {
        if self.async_spec() is Some {
            1
        } else {
            self.sinks_spec().len()
        }
    }

    /// Assembles a logger from its parts.
    pub fn from_parts(
        filter: Filter,
        formatter: ActiveFormatter,
        sinks: Vec<SinkEntry>,
        async_capacity: Option<usize>,
    ) -> (l: Self)
        ensures
            l.filter_spec() == filter@,
            l.filter_settings() == filter.settings(),
            l.formatter_spec() == formatter,
            l.sinks_spec() == sinks@,
            l.async_spec() == async_capacity,
    {
        ProLogger { filter, formatter, sinks, async_capacity }
    }

    /// Creates a new `ProLoggerBuilder` for configuring a logger.
    pub fn builder() -> (b: ProLoggerBuilder)
        ensures
            b@ == ProLoggerBuilder::initial(),
    {
        ProLoggerBuilder::new()
    }

    /// The filter of the logger.
    pub fn filter(&self) -> (f: &Filter)
        ensures
            f@ == self.filter_spec(),
    {
        &self.filter
    }

    /// Whether a record with this metadata passes the logger's filter.
    pub fn enabled(&self, metadata: &Metadata) -> (b: bool)
        ensures
            b == filter_allows(self.filter_spec(), metadata.level, metadata.target@),
    {
        self.filter.is_enabled(metadata)
    }

    /// Hands a record that passes the filter to every sink, in order, with
    /// the logger's formatter; drops a record that does not pass. Returns
    /// whether the record passed.
    pub fn log(&self, record: &Record) -> (delivered: bool)
        ensures
            delivered == filter_allows(self.filter_spec(), record.level, record.target@),
            delivered ==> forall|i: int|
                0 <= i < self.sinks_spec().len() ==> #[trigger] received(self.sinks_spec()[i], *record),
    {
        let metadata = record.metadata();
        if !self.enabled(&metadata) {
            return false;
        }
        write_all(&self.sinks, record, &self.formatter);
        true
    }

    /// Flushes every sink, in order.
    pub fn flush(&self) {
        flush_all(&self.sinks);
    }

    /// The number of sinks records are handed to.
    pub fn sinks_count(&self) -> (n: usize)
        ensures
            n == self.sinks_count_spec(),
    {
        match self.async_capacity {
            Some(_) => 1,
            None => self.sinks.len(),
        }
    }

    /// The queue capacity of the background worker, if the logger has one.
    pub fn async_capacity(&self) -> (c: Option<usize>)
        ensures
            c == self.async_spec(),
    {
        self.async_capacity
    }

    /// Removes and returns the sinks, for a caller that drives them itself
    /// (such as a background worker); the logger is left with no sinks and
    /// no worker capacity.
    pub fn take_sinks(&mut self) -> (sinks: Vec<SinkEntry>)
        ensures
            sinks@ == old(self).sinks_spec(),
            final(self).sinks_spec() == Seq::<SinkEntry>::empty(),
            final(self).async_spec() is None,
            final(self).filter_spec() == old(self).filter_spec(),
            final(self).formatter_spec() == old(self).formatter_spec(),
    {
        let mut sinks: Vec<SinkEntry> = Vec::new();
        std::mem::swap(&mut sinks, &mut self.sinks);
        self.async_capacity = None;
        sinks
    }

    /// Adds a sink after the existing ones.
    pub fn add_sink(&mut self, sink: SinkEntry)
        ensures
            final(self).sinks_spec() == old(self).sinks_spec().push(sink),
            final(self).async_spec() == old(self).async_spec(),
            final(self).filter_spec() == old(self).filter_spec(),
            final(self).formatter_spec() == old(self).formatter_spec(),
    {
        self.sinks.push(sink);
    }

    /// A one-line description of the logger, as its debug text:
    /// `ProLogger { filter: Filter { global_level: Info, module_levels: {…} },
    /// sinks_count: 1 }`.
    pub fn describe(&self) -> (s: String)
        ensures
            s@ == description(self.filter_spec().global, self.filter_settings(), self.sinks_count_spec()),
    {
        proof {
            reveal_strlit("ProLogger { filter: ");
            reveal_strlit(", sinks_count: ");
            reveal_strlit(" }");
        }
        let mut s = String::new();
        s.append("ProLogger { filter: ");
        let f = self.filter.debug_text();
        s.append(f.as_str());
        s.append(", sinks_count: ");
        push_decimal(&mut s, self.sinks_count() as u64);
        s.append(" }");
        assert(s@ =~= description(self.filter_spec().global, self.filter_settings(), self.sinks_count_spec()));
        s
    }
}

/// A logger formats with the formatter it holds: the text of an
/// `ActiveFormatter::Custom(c)` for a record is a text `c` gives for it, and
/// that of a built-in formatter is a text that formatter gives. With
/// `build`, which installs the custom formatter when one was set (see
/// `uses_formatter`), a logger built with a custom formatter formats with it.
pub proof fn law_logger_formats_with_its_formatter(used: ActiveFormatter, record: Record, out: Seq<char>)
    ensures
        used matches ActiveFormatter::Custom(c) ==> (used.formats(record, out) <==> c.formats(record, out)),
        used matches ActiveFormatter::Builtin(x) ==> (used.formats(record, out) <==> x.formats(record, out)),
{
}

} // verus!
