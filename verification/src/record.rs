//! Log records and their metadata, as plain owned values.

use vstd::prelude::*;

use crate::level::Level;

verus! {

/// The part of a record that filtering looks at.
#[derive(Debug, Clone)]
pub struct Metadata {
    /// The severity of the record.
    pub level: Level,
    /// The module path or other target that emitted it.
    pub target: String,
}

/// A log record: its metadata, its rendered message and where it came from.
#[derive(Debug, Clone)]
pub struct Record {
    /// The severity of the record.
    pub level: Level,
    /// The module path or other target that emitted it.
    pub target: String,
    /// The rendered message.
    pub message: String,
    /// The module path of the call site, if known.
    pub module: Option<String>,
    /// The source file of the call site, if known.
    pub file: Option<String>,
    /// The source line of the call site, if known.
    pub line: Option<u32>,
}

impl Metadata {
    /// Metadata for a record of `level` emitted by `target`.
    pub fn new(level: Level, target: &str) -> (m: Metadata)
        ensures
            m.level == level,
            m.target@ == target@,
    {
        Metadata { level, target: String::from_str(target) }
    }
}

impl Record {
    /// A record of `level` from `target` with the given message and no
    /// call-site information.
    pub fn new(level: Level, target: &str, message: &str) -> (r: Record)
        ensures
            r.level == level,
            r.target@ == target@,
            r.message@ == message@,
            r.module is None,
            r.file is None,
            r.line is None,
    {
        Record {
            level,
            target: String::from_str(target),
            message: String::from_str(message),
            module: None,
            file: None,
            line: None,
        }
    }

    /// The metadata of this record.
    pub fn metadata(&self) -> (m: Metadata)
        ensures
            m.level == self.level,
            m.target@ == self.target@,
    {
        Metadata { level: self.level, target: self.target.clone() }
    }
}

} // verus!
