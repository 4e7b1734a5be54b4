//! The decisions of a background worker that drives sinks on behalf of a
//! logger: records arrive already formatted, and the worker writes them,
//! flushes on request, and stops on shutdown. Receiving the messages and
//! answering flush requests is left to the caller.

use vstd::prelude::*;

use super::{flush_all, write_all, SinkEntry};
use crate::formatter::Format;
use crate::record::Record;

verus! {

/// A copy of `record` without its message: the call site and metadata
/// only, as the worker hands records to its sinks (the text itself travels
/// already formatted).
pub fn copy_record(record: &Record) -> (r: Record)
    ensures
        r.level == record.level,
        r.target == record.target,
        r.message@ == Seq::<char>::empty(),
        r.module == record.module,
        r.file == record.file,
        r.line == record.line,
{
    let module = match &record.module {
        Some(m) => Some(m.clone()),
        None => None,
    };
    let file = match &record.file {
        Some(f) => Some(f.clone()),
        None => None,
    };
    Record {
        level: record.level,
        target: record.target.clone(),
        message: String::new(),
        module,
        file,
        line: record.line,
    }
}

/// A record with the text its formatter made of it, owned, so that it can
/// be handed to another thread.
pub struct OwnedRecord {
    pub record: Record,
    pub formatted: String,
}

impl OwnedRecord {
    /// Copies the metadata and call site of `record`, leaving out its
    /// message, and formats it with `formatter`.
    pub fn from_record(record: &Record, formatter: &dyn Format) -> (o: OwnedRecord)
        ensures
            o.record.level == record.level,
            o.record.target == record.target,
            o.record.message@ == Seq::<char>::empty(),
            o.record.module == record.module,
            o.record.file == record.file,
            o.record.line == record.line,
    {
        let formatted = formatter.format(record);
        OwnedRecord { record: copy_record(record), formatted }
    }
}

/// A formatter that hands back text that was formatted earlier.
pub struct Preformatted {
    text: String,
}

impl Preformatted {
    /// The text this formatter hands back.
    pub closed spec fn text_spec(&self) -> Seq<char> {
        self.text@
    }
}

impl Format for Preformatted {
    /// The earlier formatted text.
    open spec fn formats(&self, record: Record, out: Seq<char>) -> bool {
        out == self.text_spec()
    }

    /// The earlier formatted text, whatever the record.
    fn format(&self, _record: &Record) -> (s: String)
        ensures
            s@ == self.text_spec(),
    {
        self.text.clone()
    }
}

/// A message to the worker.
pub enum WorkerMessage {
    /// Write this record to every sink.
    Log(OwnedRecord),
    /// Flush every sink, then acknowledge.
    Flush,
    /// Flush every sink, then stop.
    Shutdown,
}

/// What the worker does once it has handled a message.
#[derive(Debug, Clone, Copy, PartialEq, Eq, Structural)]
pub enum WorkerAction {
    /// Wait for the next message.
    Continue,
    /// Tell the sender of the flush request that the sinks are flushed,
    /// then wait for the next message.
    Acknowledge,
    /// Stop receiving messages.
    Stop,
}

/// The action that follows a message.
pub open spec fn action_for(msg: WorkerMessage) -> WorkerAction {
    match msg {
        WorkerMessage::Log(_) => WorkerAction::Continue,
        WorkerMessage::Flush => WorkerAction::Acknowledge,
        WorkerMessage::Shutdown => WorkerAction::Stop,
    }
}

/// Handles one message: a record (its metadata and call site, with an
/// empty message) is written to every sink, in order, as its formatter
/// rendered it; a flush request or a shutdown flushes every
/// sink. Returns what the worker does next.
pub fn handle_message(sinks: &Vec<SinkEntry>, msg: WorkerMessage) -> (a: WorkerAction)
    ensures
        a == action_for(msg),
{
    match msg {
        WorkerMessage::Log(owned) => {
            let OwnedRecord { record, formatted } = owned;
            let formatter = Preformatted { text: formatted };
            write_all(sinks, &record, &formatter);
            WorkerAction::Continue
        },
        WorkerMessage::Flush => {
            flush_all(sinks);
            WorkerAction::Acknowledge
        },
        WorkerMessage::Shutdown => {
            flush_all(sinks);
            WorkerAction::Stop
        },
    }
}

} // verus!
