//! Log levels and level filters.
//!
//! `Level` is the severity of a record; `LevelFilter` is the most verbose
//! level a filter lets through. A level passes a filter when its rank is at
//! most the filter's rank (`Error` = 1 … `Trace` = 5, `Off` = 0).

use vstd::prelude::*;

verus! {

/// The severity of a log record, from most to least severe.
#[derive(Debug, Clone, Copy, PartialEq, Eq, Hash, Structural)]
pub enum Level {
    Error,
    Warn,
    Info,
    Debug,
    Trace,
}

/// The most verbose level that a filter admits (`Off` admits none).
#[derive(Debug, Clone, Copy, PartialEq, Eq, Hash, Structural)]
pub enum LevelFilter {
    Off,
    Error,
    Warn,
    Info,
    Debug,
    Trace,
}

impl Level {
    /// Rank of the level: 1 for `Error` up to 5 for `Trace`.
    pub open spec fn rank(self) -> int {
        match self {
            Level::Error => 1,
            Level::Warn => 2,
            Level::Info => 3,
            Level::Debug => 4,
            Level::Trace => 5,
        }
    }

    /// Upper-case name of the level.
    pub open spec fn name(self) -> Seq<char> {
        match self {
            Level::Error => seq!['E', 'R', 'R', 'O', 'R'],
            Level::Warn => seq!['W', 'A', 'R', 'N'],
            Level::Info => seq!['I', 'N', 'F', 'O'],
            Level::Debug => seq!['D', 'E', 'B', 'U', 'G'],
            Level::Trace => seq!['T', 'R', 'A', 'C', 'E'],
        }
    }

    /// Upper-case name of the level (`"ERROR"`, `"WARN"`, …).
    pub fn as_str(self) -> (s: &'static str)
        ensures
            s@ == self.name(),
    {
        proof {
            reveal_strlit("ERROR");
            reveal_strlit("WARN");
            reveal_strlit("INFO");
            reveal_strlit("DEBUG");
            reveal_strlit("TRACE");
        }
        match self {
            Level::Error => "ERROR",
            Level::Warn => "WARN",
            Level::Info => "INFO",
            Level::Debug => "DEBUG",
            Level::Trace => "TRACE",
        }
    }

    /// The filter that admits exactly this level and the more severe ones.
    pub open spec fn spec_to_filter(self) -> LevelFilter {
        match self {
            Level::Error => LevelFilter::Error,
            Level::Warn => LevelFilter::Warn,
            Level::Info => LevelFilter::Info,
            Level::Debug => LevelFilter::Debug,
            Level::Trace => LevelFilter::Trace,
        }
    }

    /// The filter that admits exactly this level and the more severe ones.
    pub fn to_level_filter(self) -> (f: LevelFilter)
        ensures
            f == self.spec_to_filter(),
            f.rank() == self.rank(),
    {
        match self {
            Level::Error => LevelFilter::Error,
            Level::Warn => LevelFilter::Warn,
            Level::Info => LevelFilter::Info,
            Level::Debug => LevelFilter::Debug,
            Level::Trace => LevelFilter::Trace,
        }
    }
}

impl LevelFilter {
    /// Rank of the filter: 0 for `Off` up to 5 for `Trace`.
    pub open spec fn rank(self) -> int {
        match self {
            LevelFilter::Off => 0,
            LevelFilter::Error => 1,
            LevelFilter::Warn => 2,
            LevelFilter::Info => 3,
            LevelFilter::Debug => 4,
            LevelFilter::Trace => 5,
        }
    }

    /// Upper-case name of the filter.
    pub open spec fn name(self) -> Seq<char> {
        match self {
            LevelFilter::Off => seq!['O', 'F', 'F'],
            LevelFilter::Error => seq!['E', 'R', 'R', 'O', 'R'],
            LevelFilter::Warn => seq!['W', 'A', 'R', 'N'],
            LevelFilter::Info => seq!['I', 'N', 'F', 'O'],
            LevelFilter::Debug => seq!['D', 'E', 'B', 'U', 'G'],
            LevelFilter::Trace => seq!['T', 'R', 'A', 'C', 'E'],
        }
    }

    /// Upper-case name of the filter (`"OFF"`, `"ERROR"`, …).
    pub fn as_str(self) -> (s: &'static str)
        ensures
            s@ == self.name(),
    {
        proof {
            reveal_strlit("OFF");
            reveal_strlit("ERROR");
            reveal_strlit("WARN");
            reveal_strlit("INFO");
            reveal_strlit("DEBUG");
            reveal_strlit("TRACE");
        }
        match self {
            LevelFilter::Off => "OFF",
            LevelFilter::Error => "ERROR",
            LevelFilter::Warn => "WARN",
            LevelFilter::Info => "INFO",
            LevelFilter::Debug => "DEBUG",
            LevelFilter::Trace => "TRACE",
        }
    }

    /// Name of the filter as its variant is written (`Off`, `Error`, …).
    pub open spec fn variant_name(self) -> Seq<char> {
        match self {
            LevelFilter::Off => seq!['O', 'f', 'f'],
            LevelFilter::Error => seq!['E', 'r', 'r', 'o', 'r'],
            LevelFilter::Warn => seq!['W', 'a', 'r', 'n'],
            LevelFilter::Info => seq!['I', 'n', 'f', 'o'],
            LevelFilter::Debug => seq!['D', 'e', 'b', 'u', 'g'],
            LevelFilter::Trace => seq!['T', 'r', 'a', 'c', 'e'],
        }
    }

    /// Name of the filter as its variant is written (`"Off"`, `"Error"`, …).
    pub fn variant_str(self) -> (s: &'static str)
        ensures
            s@ == self.variant_name(),
    {
        proof {
            reveal_strlit("Off");
            reveal_strlit("Error");
            reveal_strlit("Warn");
            reveal_strlit("Info");
            reveal_strlit("Debug");
            reveal_strlit("Trace");
        }
        match self {
            LevelFilter::Off => "Off",
            LevelFilter::Error => "Error",
            LevelFilter::Warn => "Warn",
            LevelFilter::Info => "Info",
            LevelFilter::Debug => "Debug",
            LevelFilter::Trace => "Trace",
        }
    }
}

/// A record of level `level` passes the filter `filter` (`level <= filter`).
pub open spec fn admits(filter: LevelFilter, level: Level) -> bool {
    level.rank() <= filter.rank()
}

/// Whether `level` passes `filter`.
pub fn level_passes(level: Level, filter: LevelFilter) -> (b: bool)
    ensures
        b == admits(filter, level),
{
    let l: u8 = match level {
        Level::Error => 1,
        Level::Warn => 2,
        Level::Info => 3,
        Level::Debug => 4,
        Level::Trace => 5,
    };
    let f: u8 = match filter {
        LevelFilter::Off => 0,
        LevelFilter::Error => 1,
        LevelFilter::Warn => 2,
        LevelFilter::Info => 3,
        LevelFilter::Debug => 4,
        LevelFilter::Trace => 5,
    };
    l <= f
}

/// `Off` lets nothing through, `Trace` lets everything through, and a level
/// that passes a filter is followed through by every more severe level.
pub proof fn law_level_order(filter: LevelFilter, level: Level, severer: Level)
    ensures
        !admits(LevelFilter::Off, level),
        admits(LevelFilter::Trace, level),
        admits(filter, level) && severer.rank() <= level.rank() ==> admits(filter, severer),
        admits(level.spec_to_filter(), level),
{
}

} // verus!
