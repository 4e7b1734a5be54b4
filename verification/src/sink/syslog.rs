//! The syslog severity that each record is sent with.

use vstd::prelude::*;

use crate::level::Level;

verus! {

/// The syslog severities that records are sent with.
#[derive(Debug, Clone, Copy, PartialEq, Eq, Structural)]
pub enum SyslogSeverity {
    Error,
    Warning,
    Informational,
    Debug,
}

/// The severity a record of `level` is sent with. Syslog has no trace
/// severity, so trace records go out as debug.
pub fn syslog_severity(level: Level) -> (s: SyslogSeverity)
    ensures
        s == match level {
            Level::Error => SyslogSeverity::Error,
            Level::Warn => SyslogSeverity::Warning,
            Level::Info => SyslogSeverity::Informational,
            Level::Debug | Level::Trace => SyslogSeverity::Debug,
        },
{
    match level {
        Level::Error => SyslogSeverity::Error,
        Level::Warn => SyslogSeverity::Warning,
        Level::Info => SyslogSeverity::Informational,
        Level::Debug => SyslogSeverity::Debug,
        Level::Trace => SyslogSeverity::Debug,
    }
}

} // verus!
