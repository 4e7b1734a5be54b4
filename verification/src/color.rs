//! ANSI color support for terminal output.
//!
//! Provides level-based coloring with automatic terminal detection.

use vstd::prelude::*;

use crate::level::Level;
use crate::text::str_equal;

verus! {

/// ANSI colors used for log output.
#[derive(Debug, Clone, Copy, PartialEq, Eq, Structural)]
pub enum AnsiColor {
    Red,
    Yellow,
    Green,
    Blue,
    Magenta,
    Cyan,
    White,
    BrightRed,
    BrightYellow,
    BrightGreen,
    BrightCyan,
    Gray,
}

/// The escape sequence `ESC [ code m`.
pub open spec fn escape(code: Seq<char>) -> Seq<char> {
    seq!['\x1b', '['] + code + seq!['m']
}

/// The reset sequence.
pub open spec fn reset_seq() -> Seq<char> {
    escape(seq!['0'])
}

/// The bold sequence.
pub open spec fn bold_seq() -> Seq<char> {
    escape(seq!['1'])
}

impl AnsiColor {
    /// Resets all attributes.
    pub const RESET: &'static str = "\x1b[0m";

    /// Bold text.
    pub const BOLD: &'static str = "\x1b[1m";

    /// Dim text.
    pub const DIM: &'static str = "\x1b[2m";

    /// The SGR parameter of the color.
    pub open spec fn code_spec(self) -> Seq<char> {
        match self {
            AnsiColor::Red => seq!['3', '1'],
            AnsiColor::Yellow => seq!['3', '3'],
            AnsiColor::Green => seq!['3', '2'],
            AnsiColor::Blue => seq!['3', '4'],
            AnsiColor::Magenta => seq!['3', '5'],
            AnsiColor::Cyan => seq!['3', '6'],
            AnsiColor::White => seq!['3', '7'],
            AnsiColor::BrightRed => seq!['9', '1'],
            AnsiColor::BrightYellow => seq!['9', '3'],
            AnsiColor::BrightGreen => seq!['9', '2'],
            AnsiColor::BrightCyan => seq!['9', '6'],
            AnsiColor::Gray => seq!['9', '0'],
        }
    }

    /// The escape sequence that selects the color.
    pub fn code(self) -> (s: &'static str)
        ensures
            s@ == escape(self.code_spec()),
    {
        proof {
            reveal_strlit("\x1b[31m");
            reveal_strlit("\x1b[33m");
            reveal_strlit("\x1b[32m");
            reveal_strlit("\x1b[34m");
            reveal_strlit("\x1b[35m");
            reveal_strlit("\x1b[36m");
            reveal_strlit("\x1b[37m");
            reveal_strlit("\x1b[91m");
            reveal_strlit("\x1b[93m");
            reveal_strlit("\x1b[92m");
            reveal_strlit("\x1b[96m");
            reveal_strlit("\x1b[90m");
        }
        let s = match self {
            AnsiColor::Red => "\x1b[31m",
            AnsiColor::Yellow => "\x1b[33m",
            AnsiColor::Green => "\x1b[32m",
            AnsiColor::Blue => "\x1b[34m",
            AnsiColor::Magenta => "\x1b[35m",
            AnsiColor::Cyan => "\x1b[36m",
            AnsiColor::White => "\x1b[37m",
            AnsiColor::BrightRed => "\x1b[91m",
            AnsiColor::BrightYellow => "\x1b[93m",
            AnsiColor::BrightGreen => "\x1b[92m",
            AnsiColor::BrightCyan => "\x1b[96m",
            AnsiColor::Gray => "\x1b[90m",
        };
        assert(s@ =~= escape(self.code_spec()));
        s
    }
}

/// The color of each level.
pub open spec fn level_color_spec(level: Level) -> AnsiColor {
    match level {
        Level::Error => AnsiColor::BrightRed,
        Level::Warn => AnsiColor::BrightYellow,
        Level::Info => AnsiColor::BrightGreen,
        Level::Debug => AnsiColor::BrightCyan,
        Level::Trace => AnsiColor::Gray,
    }
}

/// Returns the ANSI color for a given log level.
pub fn level_color(level: Level) -> (c: AnsiColor)
    ensures
        c == level_color_spec(level),
{
    match level {
        Level::Error => AnsiColor::BrightRed,
        Level::Warn => AnsiColor::BrightYellow,
        Level::Info => AnsiColor::BrightGreen,
        Level::Debug => AnsiColor::BrightCyan,
        Level::Trace => AnsiColor::Gray,
    }
}

/// `text` wrapped in the color (and bold) sequences and a reset.
pub open spec fn colorized(text: Seq<char>, color: AnsiColor, bold: bool) -> Seq<char> {
    if bold {
        bold_seq() + escape(color.code_spec()) + text + reset_seq()
    } else {
        escape(color.code_spec()) + text + reset_seq()
    }
}

/// Colorize a string with the given ANSI color.
pub fn colorize(text: &str, color: AnsiColor, bold: bool) -> (s: String)
    ensures
        s@ == colorized(text@, color, bold),
{
    proof {
        reveal_strlit("\x1b[0m");
        reveal_strlit("\x1b[1m");
        assert(AnsiColor::RESET@ =~= reset_seq());
        assert(AnsiColor::BOLD@ =~= bold_seq());
    }
    let mut s = String::new();
    if bold {
        s.append(AnsiColor::BOLD);
    }
    s.append(color.code());
    s.append(text);
    s.append(AnsiColor::RESET);
    assert(s@ =~= colorized(text@, color, bold));
    s
}

/// Color support as the environment reports it: `NO_COLOR` unset and a
/// `TERM` other than `dumb`.
pub open spec fn env_supports_color(no_color_set: bool, term: Option<Seq<char>>) -> bool {
    !no_color_set && match term {
        Some(t) => t != seq!['d', 'u', 'm', 'b'],
        None => false,
    }
}

/// Decides color support from the `NO_COLOR` convention
/// (<https://no-color.org/>) and the value of `TERM`, if it is set.
pub fn supports_color_given(no_color_set: bool, term: Option<&str>) -> (b: bool)
    ensures
        b == env_supports_color(
            no_color_set,
            match term {
                Some(t) => Some(t@),
                None => None,
            },
        ),
{
    if no_color_set {
        return false;
    }
    match term {
        Some(t) => {
            proof {
                reveal_strlit("dumb");
                assert("dumb"@ =~= seq!['d', 'u', 'm', 'b']);
            }
            !str_equal(t, "dumb")
        },
        None => false,
    }
}

/// Color mode configuration.
#[derive(Debug, Clone, Copy, PartialEq, Eq, Structural)]
pub enum ColorMode {
    /// Automatically detect terminal color support.
    Auto,
    /// Always use colors.
    Always,
    /// Never use colors.
    Never,
}

impl Default for ColorMode {
    fn default() -> (m: Self)
        ensures
            m == ColorMode::Auto,
    {
        ColorMode::Auto
    }
}

impl ColorMode {
    /// Whether this mode colors output on a terminal whose color support is
    /// `terminal_supports_color`.
    pub open spec fn colors(self, terminal_supports_color: bool) -> bool {
        match self {
            ColorMode::Auto => terminal_supports_color,
            ColorMode::Always => true,
            ColorMode::Never => false,
        }
    }

    /// Returns whether colors should be used given this mode, where `Auto`
    /// follows the detected terminal support.
    pub fn should_color(self, terminal_supports_color: bool) -> (b: bool)
        ensures
            b == self.colors(terminal_supports_color),
    {
        match self {
            ColorMode::Auto => terminal_supports_color,
            ColorMode::Always => true,
            ColorMode::Never => false,
        }
    }
}

} // verus!
