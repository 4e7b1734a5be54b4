//! Builder pattern for constructing a configured `ProLogger`.
//!
//! Provides a fluent API for configuring all aspects of the logger
//! before building it.

use vstd::prelude::*;

use crate::color::ColorMode;
use crate::env::{env_outcome, modules_view, parse_env, EnvConfig, EnvFailure, EnvLookup, EnvParseError, EnvSpec};
use crate::filter::{entries_map, with_modules, Filter, FilterSpec};
use crate::formatter::{create_formatter, Format, FormatterType};
use crate::level::LevelFilter;
use crate::logger::{ActiveFormatter, ProLogger};
use crate::sink::console::{ConsoleSink, ConsoleTarget};
use crate::sink::{Sink, SinkEntry};

verus! {

/// The settings a builder has collected.
pub struct BuilderSpec {
    pub level: LevelFilter,
    pub module_filters: Seq<(Seq<char>, LevelFilter)>,
    pub sinks: Seq<SinkEntry>,
    pub formatter_type: FormatterType,
    pub custom_formatter: Option<Box<dyn Format>>,
    pub color_mode: ColorMode,
    pub async_capacity: Option<usize>,
}

/// Builder for constructing a [`ProLogger`] instance.
pub struct ProLoggerBuilder {
    level: LevelFilter,
    module_filters: Vec<(String, LevelFilter)>,
    sinks: Vec<SinkEntry>,
    formatter_type: FormatterType,
    custom_formatter: Option<Box<dyn Format>>,
    color_mode: ColorMode,
    async_capacity: Option<usize>,
}

impl View for ProLoggerBuilder {
    type V = BuilderSpec;

    closed spec fn view(&self) -> BuilderSpec {
        BuilderSpec {
            level: self.level,
            module_filters: modules_view(self.module_filters@),
            sinks: self.sinks@,
            formatter_type: self.formatter_type,
            custom_formatter: self.custom_formatter,
            color_mode: self.color_mode,
            async_capacity: self.async_capacity,
        }
    }
}

/// The filter of a built logger has the builder's level and its module
/// filters, a later filter for a module replacing an earlier one.
pub open spec fn filter_modules(filters: Seq<(Seq<char>, LevelFilter)>) -> Map<Seq<char>, LevelFilter>
    decreases filters.len(),
{
    if filters.len() == 0 {
        Map::empty()
    } else {
        filter_modules(filters.drop_last()).insert(filters.last().0, filters.last().1)
    }
}

/// The settings after applying an environment configuration: its global
/// level, if any, replaces the builder's level, and its module levels are
/// added after the builder's module filters.
pub open spec fn env_applied(b: BuilderSpec, c: EnvSpec) -> BuilderSpec {
    BuilderSpec {
        level: match c.global {
            Some(l) => l,
            None => b.level,
        },
        module_filters: b.module_filters + c.modules,
        ..b
    }
}

/// What configuring a builder with settings `b` from the variable
/// `var_name`, whose value in the environment is `lookup`, gives: the
/// settings unchanged when it is not set, with its configuration applied
/// when it parses, and the error otherwise.
pub open spec fn env_var_result(b: BuilderSpec, var_name: Seq<char>, lookup: EnvLookup) -> Result<
    BuilderSpec,
    EnvFailure,
> {
    match env_outcome(var_name, lookup) {
        None => Ok(b),
        Some(Ok(c)) => Ok(env_applied(b, c)),
        Some(Err(e)) => Err(e),
    }
}

/// The settings after `with_formatter(formatter_type)`: the type is set and
/// any custom formatter is dropped.
pub open spec fn formatter_set(b: BuilderSpec, formatter_type: FormatterType) -> BuilderSpec {
    BuilderSpec { formatter_type, custom_formatter: None, ..b }
}

/// The settings after `with_custom_formatter`, with `formatter` holding
/// the formatter given.
pub open spec fn custom_formatter_set(b: BuilderSpec, formatter: Option<Box<dyn Format>>) -> BuilderSpec {
    BuilderSpec { custom_formatter: formatter, ..b }
}

/// `f` is the formatter of a logger built from settings `b` for a terminal
/// whose color support is `terminal`: the custom formatter when one is set,
/// otherwise the built-in formatter of the settings' type, colored when it
/// is the pretty one and the color mode colors on that terminal.
pub open spec fn uses_formatter(b: BuilderSpec, terminal: bool, f: ActiveFormatter) -> bool {
    match b.custom_formatter {
        Some(c) => f == ActiveFormatter::Custom(c),
        None => {
            &&& f matches ActiveFormatter::Builtin(x)
            &&& x.kind() == b.formatter_type
            &&& x.colored() == (b.formatter_type == FormatterType::Pretty && b.color_mode.colors(terminal))
        },
    }
}

/// Reading the variable `var_name` gives an error.
pub open spec fn env_refused(var_name: Seq<char>, lookup: EnvLookup) -> bool {
    env_outcome(var_name, lookup) matches Some(Err(_))
}

fn some_formatter(f: Box<dyn Format>) -> (r: Option<Box<dyn Format>>)
    ensures
        r == Some(f),
{
    let r = Some(f);
    r
}

proof fn lemma_entries_map_view(v: Seq<(String, LevelFilter)>)
    ensures
        entries_map(v) == filter_modules(modules_view(v)),
    decreases v.len(),
{
    if v.len() > 0 {
        lemma_entries_map_view(v.drop_last());
        assert(modules_view(v.drop_last()) =~= modules_view(v).drop_last());
    }
}

impl ProLoggerBuilder {
    /// The settings of a new builder: level `Info`, no module filters, no
    /// sinks, the pretty formatter, color mode `Auto`, synchronous output.
    pub open spec fn initial() -> BuilderSpec {
        BuilderSpec {
            level: LevelFilter::Info,
            module_filters: Seq::empty(),
            sinks: Seq::empty(),
            formatter_type: FormatterType::Pretty,
            custom_formatter: None,
            color_mode: ColorMode::Auto,
            async_capacity: None,
        }
    }

    /// Creates a new builder with default settings.
    ///
    /// Defaults:
    /// - Level: `Info`
    /// - Formatter: `Pretty`
    /// - Color: `Auto`
    /// - No sinks configured (a console sink is added at build time)
    pub fn new() -> (b: Self)
        ensures
            b@ == Self::initial(),
    {
        let b = Self {
            level: LevelFilter::Info,
            module_filters: Vec::new(),
            sinks: Vec::new(),
            formatter_type: FormatterType::Pretty,
            custom_formatter: None,
            color_mode: ColorMode::Auto,
            async_capacity: None,
        };
        assert(b@.module_filters =~= Seq::<(Seq<char>, LevelFilter)>::empty());
        b
    }

    /// Sets the global maximum log level.
    pub fn with_level(self, level: LevelFilter) -> (b: Self)
        ensures
            b@ == (BuilderSpec { level, ..self@ }),
    {
        let mut b = self;
        b.level = level;
        b
    }

    /// Adds a module-specific level filter.
    ///
    /// Module paths are matched by prefix, so `"hyper"` will match
    /// `"hyper::client"`, `"hyper::server"`, etc.
    pub fn with_module_filter(self, module: &str, level: LevelFilter) -> (b: Self)
        ensures
            b@ == (BuilderSpec { module_filters: self@.module_filters.push((module@, level)), ..self@ }),
    {
        let mut b = self;
        let ghost before = b.module_filters@;
        b.module_filters.push((String::from_str(module), level));
        assert(modules_view(b.module_filters@) =~= modules_view(before).push((module@, level)));
        b
    }

    /// Applies a parsed env config to this builder: its global level, if
    /// any, replaces the builder's level, and its module levels are added
    /// after the builder's module filters.
    pub fn apply_env_config(self, config: EnvConfig) -> (b: Self)
        ensures
            b@ == env_applied(self@, config@),
    {
        let mut b = self;
        if let Some(level) = config.global_level() {
            b.level = level;
        }
        let levels = config.module_levels();
        let ghost start = modules_view(b.module_filters@);
        let mut i: usize = 0;
        while i < levels.len()
            invariant
                i <= levels.len(),
                modules_view(levels@) == config@.modules,
                modules_view(b.module_filters@) == start + config@.modules.take(i as int),
                b.level == (match config@.global {
                    Some(l) => l,
                    None => self@.level,
                }),
                b.sinks@ == self@.sinks,
                b.formatter_type == self@.formatter_type,
                b.custom_formatter == self@.custom_formatter,
                b.color_mode == self@.color_mode,
                b.async_capacity == self@.async_capacity,
            decreases levels.len() - i,
        {
            let ghost before = b.module_filters@;
            let module = levels[i].0.clone();
            let level = levels[i].1;
            b.module_filters.push((module, level));
            assert(config@.modules[i as int] == modules_view(levels@)[i as int]);
            assert(modules_view(b.module_filters@) =~= modules_view(before).push(
                config@.modules[i as int],
            ));
            assert(config@.modules.take(i + 1) =~= config@.modules.take(i as int).push(
                config@.modules[i as int],
            ));
            i = i + 1;
        }
        assert(config@.modules.take(levels.len() as int) =~= config@.modules);
        b
    }

    /// Applies the outcome of reading and parsing an environment variable:
    /// a parsed configuration is applied, an error is returned, and an unset
    /// variable leaves the builder unchanged.
    fn apply_env_outcome(self, found: Option<Result<EnvConfig, EnvParseError>>) -> (r: Result<
        Self,
        EnvParseError,
    >)
        ensures
            match found {
                Some(Ok(config)) => r matches Ok(b) && (b@ == env_applied(self@, config@)),
                Some(Err(e)) => r matches Err(e2) && (e2@ == e@),
                None => r matches Ok(b) && (b@ == self@),
            },
    {
        match found {
            Some(Ok(config)) => Ok(self.apply_env_config(config)),
            Some(Err(e)) => Err(e),
            None => Ok(self),
        }
    }

    /// Configures the logger from the environment variable `var_name`,
    /// whose value in the environment is `lookup`, returning an error
    /// instead of panicking on invalid syntax.
    ///
    /// Returns the builder unchanged if the variable is not set, and with
    /// the parsed configuration applied if it parses.
    pub fn with_env_var_opt(self, var_name: &str, lookup: EnvLookup) -> (r: Result<Self, EnvParseError>)
        ensures
            match env_var_result(self@, var_name@, lookup) {
                Ok(s) => r matches Ok(b) && (b@ == s),
                Err(e) => r matches Err(e2) && (e2@ == e),
            },
    {
        self.apply_env_outcome(EnvConfig::from_env(var_name, lookup))
    }

    /// Configures the logger from `RUST_LOG`, whose value in the environment
    /// is `lookup`, returning an error instead of panicking on invalid
    /// syntax.
    pub fn with_env_opt(self, lookup: EnvLookup) -> (r: Result<Self, EnvParseError>)
        ensures
            match env_var_result(self@, EnvConfig::DEFAULT_ENV_VAR@, lookup) {
                Ok(s) => r matches Ok(b) && (b@ == s),
                Err(e) => r matches Err(e2) && (e2@ == e),
            },
    {
        self.with_env_var_opt(EnvConfig::DEFAULT_ENV_VAR, lookup)
    }

    /// Configures the logger from the environment variable `var_name`,
    /// whose value in the environment is `lookup`: if it is set, its global
    /// level replaces the builder's level and its module filters are added;
    /// if it is not set, the builder is unchanged. Invalid syntax is the
    /// caller's to rule out (see `with_env_var_opt`).
    pub fn with_env_var(self, var_name: &str, lookup: EnvLookup) -> (b: Self)
        requires
            !env_refused(var_name@, lookup),
        ensures
            env_var_result(self@, var_name@, lookup) == Ok::<BuilderSpec, EnvFailure>(b@),
    {
        match EnvConfig::from_env(var_name, lookup) {
            Some(Ok(config)) => self.apply_env_config(config),
            Some(Err(_)) => self,
            None => self,
        }
    }

    /// Configures the logger from `RUST_LOG`, whose value in the environment
    /// is `lookup` (see `with_env_var`).
    pub fn with_env(self, lookup: EnvLookup) -> (b: Self)
        requires
            !env_refused(EnvConfig::DEFAULT_ENV_VAR@, lookup),
        ensures
            env_var_result(self@, EnvConfig::DEFAULT_ENV_VAR@, lookup) == Ok::<BuilderSpec, EnvFailure>(b@),
    {
        self.with_env_var(EnvConfig::DEFAULT_ENV_VAR, lookup)
    }

    /// Sets the formatter type, dropping any custom formatter.
    pub fn with_formatter(self, formatter_type: FormatterType) -> (b: Self)
        ensures
            b@ == formatter_set(self@, formatter_type),
    {
        let mut b = self;
        b.formatter_type = formatter_type;
        b.custom_formatter = None;
        b
    }

    /// Sets a custom formatter implementation.
    pub fn with_custom_formatter(self, formatter: Box<dyn Format>) -> (b: Self)
        ensures
            b@ == custom_formatter_set(self@, Some(formatter)),
    {
        let mut b = self;
        let f = some_formatter(formatter);
        b.custom_formatter = f;
        b
    }

    /// Sets the color mode.
    pub fn with_color(self, mode: ColorMode) -> (b: Self)
        ensures
            b@ == (BuilderSpec { color_mode: mode, ..self@ }),
    {
        let mut b = self;
        b.color_mode = mode;
        b
    }

    /// Adds a console sink with the default mixed output (errors to stderr).
    pub fn with_console_default(self) -> (b: Self)
        ensures
            b@.sinks.len() == self@.sinks.len() + 1,
            b@.sinks.drop_last() == self@.sinks,
            b@.sinks.last() matches SinkEntry::Console(c) && c@ == ConsoleTarget::Mixed,
            b@ == (BuilderSpec { sinks: b@.sinks, ..self@ }),
    {
        self.with_console(ConsoleTarget::Mixed)
    }

    /// Adds a console sink with the specified target.
    pub fn with_console(self, target: ConsoleTarget) -> (b: Self)
        ensures
            b@.sinks.len() == self@.sinks.len() + 1,
            b@.sinks.drop_last() == self@.sinks,
            b@.sinks.last() matches SinkEntry::Console(c) && c@ == target,
            b@ == (BuilderSpec { sinks: b@.sinks, ..self@ }),
    {
        let mut b = self;
        b.sinks.push(SinkEntry::Console(ConsoleSink::new(target)));
        assert(b.sinks@.drop_last() =~= self@.sinks);
        b
    }

    /// Adds a custom sink implementation.
    pub fn with_sink(self, sink: Box<dyn Sink>) -> (b: Self)
        ensures
            b@ == (BuilderSpec { sinks: self@.sinks.push(SinkEntry::Custom(sink)), ..self@ }),
    {
        let mut b = self;
        let entry = SinkEntry::Custom(sink);
        b.sinks.push(entry);
        b
    }

    /// Makes the logger asynchronous, processing logs on a background thread.
    ///
    /// The `capacity` parameter determines how many log messages can be queued
    /// before dropping new messages. A good default is `10_000`.
    pub fn with_async(self, capacity: usize) -> (b: Self)
        ensures
            b@ == (BuilderSpec { async_capacity: Some(capacity), ..self@ }),
    {
        let mut b = self;
        b.async_capacity = Some(capacity);
        b
    }

    /// Builds the configured `ProLogger`, for a terminal whose color
    /// support is `terminal_supports_color` (consulted in `Auto` color mode).
    ///
    /// If no sinks have been configured, a default console sink is added
    /// automatically.
    pub fn build(self, terminal_supports_color: bool) -> (l: ProLogger)
        ensures
            l.filter_spec().global == self@.level,
            l.filter_spec().modules == filter_modules(self@.module_filters),
            l.filter_settings() == self@.module_filters,
            uses_formatter(self@, terminal_supports_color, l.formatter_spec()),
            if self@.sinks.len() == 0 {
                &&& l.sinks_spec().len() == 1
                &&& l.sinks_spec()[0] matches SinkEntry::Console(c) && c@ == ConsoleTarget::Mixed
            } else {
                l.sinks_spec() == self@.sinks
            },
            l.async_spec() == self@.async_capacity,
    {
        let ghost spec = self@;
        let ProLoggerBuilder {
            level,
            module_filters,
            mut sinks,
            formatter_type,
            custom_formatter,
            color_mode,
            async_capacity,
        } = self;
        if sinks.len() == 0 {
            sinks.push(SinkEntry::Console(ConsoleSink::default()));
        }
        let use_color = color_mode.should_color(terminal_supports_color);
        let formatter = match custom_formatter {
            Some(f) => ActiveFormatter::Custom(f),
            None => ActiveFormatter::Builtin(create_formatter(formatter_type, use_color)),
        };
        let mut filter = Filter::new(level);
        let mut i: usize = 0;
        proof {
            assert(module_filters@.take(0) =~= Seq::<(String, LevelFilter)>::empty());
            assert(modules_view(module_filters@.take(0)) =~= Seq::<(Seq<char>, LevelFilter)>::empty());
        }
        while i < module_filters.len()
            invariant
                i <= module_filters.len(),
                filter@.global == level,
                filter@.modules == entries_map(module_filters@.take(i as int)),
                filter.settings() == modules_view(module_filters@.take(i as int)),
            decreases module_filters.len() - i,
        {
            filter = filter.with_module(module_filters[i].0.as_str(), module_filters[i].1);
            assert(module_filters@.take(i + 1).drop_last() =~= module_filters@.take(i as int));
            assert(modules_view(module_filters@.take(i + 1)) =~= modules_view(module_filters@.take(i as int)).push(
                (module_filters@[i as int].0@, module_filters@[i as int].1),
            ));
            i = i + 1;
        }
        proof {
            assert(module_filters@.take(module_filters@.len() as int) =~= module_filters@);
            lemma_entries_map_view(module_filters@);
        }
        ProLogger::from_parts(filter, formatter, sinks, async_capacity)
    }
}

impl Default for ProLoggerBuilder {
    fn default() -> (b: Self)
        ensures
            b@ == Self::initial(),
    {
        Self::new()
    }
}

// ─── Laws ─────────────────────────────────────────────────────────────────

/// Module filters set later (by a later `with_module_filter`, or by an
/// environment configuration applied afterwards) take precedence: the
/// modules of the built filter are those of the earlier settings overridden
/// by those of the later ones.
pub proof fn law_later_module_filters_win(
    earlier: Seq<(Seq<char>, LevelFilter)>,
    later: Seq<(Seq<char>, LevelFilter)>,
)
    ensures
        filter_modules(earlier + later) == filter_modules(earlier).union_prefer_right(
            filter_modules(later),
        ),
    decreases later.len(),
{
    if later.len() == 0 {
        assert(earlier + later =~= earlier);
        assert(filter_modules(earlier).union_prefer_right(filter_modules(later)) =~= filter_modules(
            earlier,
        ));
    } else {
        law_later_module_filters_win(earlier, later.drop_last());
        assert((earlier + later).drop_last() =~= earlier + later.drop_last());
        assert((earlier + later).last() == later.last());
        assert(filter_modules(earlier + later) =~= filter_modules(earlier).union_prefer_right(
            filter_modules(later),
        ));
    }
}

/// The filter of a built logger is `Filter::new` of the builder's level
/// followed by `with_module` for each module filter, in the order given.
pub proof fn law_build_filter_is_module_chain(level: LevelFilter, filters: Seq<(Seq<char>, LevelFilter)>)
    ensures
        (FilterSpec { global: level, modules: filter_modules(filters) }) == with_modules(
            FilterSpec { global: level, modules: Map::empty() },
            filters,
        ),
    decreases filters.len(),
{
    if filters.len() > 0 {
        law_build_filter_is_module_chain(level, filters.drop_last());
    }
}

/// Configuring from a variable fails (where `with_env_var` panics and is
/// refused by its `requires`) exactly when `with_env_var_opt` returns an
/// error: when the variable is set but not Unicode, or its value does not
/// parse. Otherwise both give the same settings, which are the builder's
/// own when the variable is not set.
pub proof fn law_env_var_fails_as_opt(b: BuilderSpec, var_name: Seq<char>, lookup: EnvLookup)
    ensures
        env_refused(var_name, lookup) <==> env_var_result(b, var_name, lookup) is Err,
        lookup is NotPresent ==> env_var_result(b, var_name, lookup) == Ok::<BuilderSpec, EnvFailure>(b),
        lookup is NotUnicode ==> env_var_result(b, var_name, lookup) == Err::<BuilderSpec, EnvFailure>(
            EnvFailure::InvalidUnicode(var_name),
        ),
        lookup matches EnvLookup::Present(v) ==> (env_var_result(b, var_name, lookup) is Err
            <==> parse_env(v@) is Err),
{
}

/// A custom formatter (`custom`, holding the formatter given to
/// `with_custom_formatter`) wins over a formatter type set before it,
/// whatever that type and the color mode; a formatter type set after it
/// drops it, and the built logger formats with the built-in formatter of
/// that type.
pub proof fn law_custom_formatter_wins(
    b: BuilderSpec,
    custom: Option<Box<dyn Format>>,
    formatter_type: FormatterType,
    terminal: bool,
    used: ActiveFormatter,
)
    requires
        custom is Some,
    ensures
        uses_formatter(custom_formatter_set(formatter_set(b, formatter_type), custom), terminal, used)
            <==> used == ActiveFormatter::Custom(custom->0),
        uses_formatter(formatter_set(custom_formatter_set(b, custom), formatter_type), terminal, used)
            ==> (used matches ActiveFormatter::Builtin(x) && x.kind() == formatter_type),
{
}

} // verus!
