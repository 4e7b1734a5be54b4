//! # Prologger
//!
//! A logging library with colored output, file rotation, and structured
//! formatting: level filtering with per-module overrides, `RUST_LOG`-style
//! configuration strings, pretty/compact/JSON formatters, console sinks and
//! the decisions of size-based file rotation.

pub mod builder;
pub mod color;
pub mod env;
pub mod event;
pub mod filter;
pub mod formatter;
pub mod level;
pub mod logger;
pub mod record;
pub mod rotation;
pub mod sink;
pub mod text;

pub use builder::ProLoggerBuilder;
pub use color::ColorMode;
pub use env::{EnvConfig, EnvLookup, EnvParseError};
pub use formatter::FormatterType;
pub use level::{Level, LevelFilter};
pub use logger::ProLogger;
pub use record::{Metadata, Record};
pub use rotation::RotationConfig;
