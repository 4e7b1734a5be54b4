//! `RUST_LOG`-style configuration strings.
//!
//! A configuration string is a comma-separated list of directives:
//! a bare level (`debug`) sets the global level, and `module=level`
//! (`hyper=warn`) sets a module-specific level. Levels are case-insensitive;
//! whitespace around directives, module names and levels is ignored; empty
//! directives are skipped.

use vstd::prelude::*;

use crate::level::LevelFilter;
use crate::text::{
    chars_of, first_index_of, is_first_of, lower, matches_word, split_on, string_of_range, trim,
    trim_bounds,
};

verus! {

// ─── Model ────────────────────────────────────────────────────────────────

/// What a configuration string says: an optional global level and the
/// module-specific levels in the order they were written.
pub struct EnvSpec {
    pub global: Option<LevelFilter>,
    pub modules: Seq<(Seq<char>, LevelFilter)>,
}

/// Why a configuration was refused, with the offending text.
pub enum EnvFailure {
    InvalidUnicode(Seq<char>),
    InvalidLevel(Seq<char>),
    EmptyModule(Seq<char>),
    DuplicateGlobalLevel(Seq<char>),
}

/// The level that a level name denotes (case-insensitive).
pub open spec fn level_of_name(s: Seq<char>) -> Option<LevelFilter> {
    let l = lower(s);
    if l == seq!['t', 'r', 'a', 'c', 'e'] {
        Some(LevelFilter::Trace)
    } else if l == seq!['d', 'e', 'b', 'u', 'g'] {
        Some(LevelFilter::Debug)
    } else if l == seq!['i', 'n', 'f', 'o'] {
        Some(LevelFilter::Info)
    } else if l == seq!['w', 'a', 'r', 'n'] || l == seq!['w', 'a', 'r', 'n', 'i', 'n', 'g'] {
        Some(LevelFilter::Warn)
    } else if l == seq!['e', 'r', 'r', 'o', 'r'] {
        Some(LevelFilter::Error)
    } else if l == seq!['o', 'f', 'f'] || l == seq!['n', 'o', 'n', 'e'] {
        Some(LevelFilter::Off)
    } else {
        None
    }
}

/// The configuration of the empty string.
pub open spec fn empty_env() -> EnvSpec {
    EnvSpec { global: None, modules: Seq::empty() }
}

/// The effect of one comma-separated piece on the configuration read so far.
pub open spec fn directive_step(st: EnvSpec, piece: Seq<char>) -> Result<EnvSpec, EnvFailure> {
    let d = trim(piece);
    if d.len() == 0 {
        Ok(st)
    } else {
        match first_index_of(d, '=') {
            Some(i) => {
                let module = trim(d.take(i));
                let level = trim(d.skip(i + 1));
                if module.len() == 0 {
                    Err(EnvFailure::EmptyModule(d))
                } else {
                    match level_of_name(level) {
                        Some(l) => Ok(EnvSpec { global: st.global, modules: st.modules.push((module, l)) }),
                        None => Err(EnvFailure::InvalidLevel(level)),
                    }
                }
            },
            None => match level_of_name(d) {
                Some(l) => if st.global is Some {
                    Err(EnvFailure::DuplicateGlobalLevel(d))
                } else {
                    Ok(EnvSpec { global: Some(l), modules: st.modules })
                },
                None => Err(EnvFailure::InvalidLevel(d)),
            },
        }
    }
}

/// The configuration read from a list of pieces, stopping at the first
/// refused directive.
pub open spec fn read_pieces(ps: Seq<Seq<char>>) -> Result<EnvSpec, EnvFailure>
    decreases ps.len(),
{
    if ps.len() == 0 {
        Ok(empty_env())
    } else {
        match read_pieces(ps.drop_last()) {
            Ok(st) => directive_step(st, ps.last()),
            Err(e) => Err(e),
        }
    }
}

/// What `EnvConfig::parse` gives for the string `s`: the surrounding
/// whitespace is ignored, a blank string is the empty configuration, and
/// otherwise the comma-separated pieces are read in order.
pub open spec fn parse_env(s: Seq<char>) -> Result<EnvSpec, EnvFailure> {
    let t = trim(s);
    if t.len() == 0 {
        Ok(empty_env())
    } else {
        read_pieces(split_on(t, ','))
    }
}

// ─── Types ────────────────────────────────────────────────────────────────

/// Parsed environment variable configuration: a global log level and
/// per-module level overrides.
#[derive(Debug, Clone)]
pub struct EnvConfig {
    global_level: Option<LevelFilter>,
    module_levels: Vec<(String, LevelFilter)>,
}

/// Errors that can occur when parsing an environment variable.
#[derive(Debug, Clone)]
pub enum EnvParseError {
    /// The environment variable contained non-Unicode data.
    InvalidUnicode(String),
    /// An unrecognized log level string was found.
    InvalidLevel(String),
    /// A module=level directive had an empty module name.
    EmptyModule(String),
    /// Multiple bare level directives were found (e.g., `debug,warn`).
    DuplicateGlobalLevel(String),
}

/// What reading an environment variable gave.
pub enum EnvLookup {
    /// The variable is not set.
    NotPresent,
    /// The variable is set but its value is not Unicode.
    NotUnicode,
    /// The variable is set to this value.
    Present(String),
}

/// What reading the variable `var_name` gives when its value in the
/// environment is `lookup`.
pub open spec fn env_outcome(var_name: Seq<char>, lookup: EnvLookup) -> Option<Result<EnvSpec, EnvFailure>> {
    match lookup {
        EnvLookup::NotPresent => None,
        EnvLookup::NotUnicode => Some(Err(EnvFailure::InvalidUnicode(var_name))),
        EnvLookup::Present(v) => Some(parse_env(v@)),
    }
}

/// The module list of a configuration as plain sequences.
pub open spec fn modules_view(v: Seq<(String, LevelFilter)>) -> Seq<(Seq<char>, LevelFilter)> {
    Seq::new(v.len(), |i: int| (v[i].0@, v[i].1))
}

impl View for EnvConfig {
    type V = EnvSpec;

    closed spec fn view(&self) -> EnvSpec {
        EnvSpec { global: self.global_level, modules: modules_view(self.module_levels@) }
    }
}

impl View for EnvParseError {
    type V = EnvFailure;

    open spec fn view(&self) -> EnvFailure {
        match self {
            EnvParseError::InvalidUnicode(s) => EnvFailure::InvalidUnicode(s@),
            EnvParseError::InvalidLevel(s) => EnvFailure::InvalidLevel(s@),
            EnvParseError::EmptyModule(s) => EnvFailure::EmptyModule(s@),
            EnvParseError::DuplicateGlobalLevel(s) => EnvFailure::DuplicateGlobalLevel(s@),
        }
    }
}

/// `r` is the parse outcome `spec`.
pub open spec fn parsed_as(r: Result<EnvConfig, EnvParseError>, spec: Result<EnvSpec, EnvFailure>) -> bool {
    match r {
        Ok(c) => spec == Ok::<EnvSpec, EnvFailure>(c@),
        Err(e) => spec == Err::<EnvSpec, EnvFailure>(e@),
    }
}

impl EnvParseError {
    /// The human-readable description of the error.
    pub fn message(&self) -> (s: String)
        ensures
            s@ == error_message(self@),
    {
        proof {
            reveal_strlit("environment variable '");
            reveal_strlit("' contains invalid Unicode");
            reveal_strlit("invalid log level '");
            reveal_strlit("' (expected: trace, debug, info, warn, error, off)");
            reveal_strlit("empty module name in directive '");
            reveal_strlit("'");
            reveal_strlit("duplicate global level '");
            reveal_strlit("' (only one bare level is allowed)");
        }
        let mut s = String::new();
        match self {
            EnvParseError::InvalidUnicode(var) => {
                s.append("environment variable '");
                s.append(var.as_str());
                s.append("' contains invalid Unicode");
            },
            EnvParseError::InvalidLevel(level) => {
                s.append("invalid log level '");
                s.append(level.as_str());
                s.append("' (expected: trace, debug, info, warn, error, off)");
            },
            EnvParseError::EmptyModule(directive) => {
                s.append("empty module name in directive '");
                s.append(directive.as_str());
                s.append("'");
            },
            EnvParseError::DuplicateGlobalLevel(level) => {
                s.append("duplicate global level '");
                s.append(level.as_str());
                s.append("' (only one bare level is allowed)");
            },
        }
        s
    }
}

/// The human-readable description of a refusal.
pub open spec fn error_message(e: EnvFailure) -> Seq<char> {
    match e {
        EnvFailure::InvalidUnicode(var) => "environment variable '"@ + var
            + "' contains invalid Unicode"@,
        EnvFailure::InvalidLevel(level) => "invalid log level '"@ + level
            + "' (expected: trace, debug, info, warn, error, off)"@,
        EnvFailure::EmptyModule(directive) => "empty module name in directive '"@ + directive
            + "'"@,
        EnvFailure::DuplicateGlobalLevel(level) => "duplicate global level '"@ + level
            + "' (only one bare level is allowed)"@,
    }
}

// ─── Lemmas ───────────────────────────────────────────────────────────────

/// Once a prefix of the pieces is refused, so is the whole list, with the
/// same error.
proof fn lemma_read_pieces_err(ps: Seq<Seq<char>>, k: int)
    requires
        0 <= k <= ps.len(),
        read_pieces(ps.take(k)) is Err,
    ensures
        read_pieces(ps) == read_pieces(ps.take(k)),
    decreases ps.len() - k,
{
    if k < ps.len() {
        assert(ps.take(k + 1).drop_last() == ps.take(k));
        lemma_read_pieces_err(ps, k + 1);
    } else {
        assert(ps.take(k) == ps);
    }
}

// ─── Parsing ──────────────────────────────────────────────────────────────

/// Parse a level string (case-insensitive).
pub fn parse_level(s: &str) -> (r: Option<LevelFilter>)
    ensures
        r == level_of_name(s@),
{
    let v = chars_of(s);
    let n = v.len();
    proof {
        assert(v@.subrange(0, n as int) == s@);
    }
    parse_level_range(&v, 0, n)
}

/// The level named by `v[lo..hi]`.
fn parse_level_range(v: &Vec<char>, lo: usize, hi: usize) -> (r: Option<LevelFilter>)
    requires
        lo <= hi <= v.len(),
    ensures
        r == level_of_name(v@.subrange(lo as int, hi as int)),
{
    proof {
        reveal_strlit("trace");
        reveal_strlit("debug");
        reveal_strlit("info");
        reveal_strlit("warn");
        reveal_strlit("warning");
        reveal_strlit("error");
        reveal_strlit("off");
        reveal_strlit("none");
        assert("trace"@ == seq!['t', 'r', 'a', 'c', 'e']);
        assert("debug"@ == seq!['d', 'e', 'b', 'u', 'g']);
        assert("info"@ == seq!['i', 'n', 'f', 'o']);
        assert("warn"@ == seq!['w', 'a', 'r', 'n']);
        assert("warning"@ == seq!['w', 'a', 'r', 'n', 'i', 'n', 'g']);
        assert("error"@ == seq!['e', 'r', 'r', 'o', 'r']);
        assert("off"@ == seq!['o', 'f', 'f']);
        assert("none"@ == seq!['n', 'o', 'n', 'e']);
    }
    if matches_word(v, lo, hi, "trace") {
        Some(LevelFilter::Trace)
    } else if matches_word(v, lo, hi, "debug") {
        Some(LevelFilter::Debug)
    } else if matches_word(v, lo, hi, "info") {
        Some(LevelFilter::Info)
    } else if matches_word(v, lo, hi, "warn") || matches_word(v, lo, hi, "warning") {
        Some(LevelFilter::Warn)
    } else if matches_word(v, lo, hi, "error") {
        Some(LevelFilter::Error)
    } else if matches_word(v, lo, hi, "off") || matches_word(v, lo, hi, "none") {
        Some(LevelFilter::Off)
    } else {
        None
    }
}

/// The bounds of the comma-separated pieces of `v`.
fn split_ranges(v: &Vec<char>, sep: char) -> (r: Vec<(usize, usize)>)
    ensures
        r.len() == split_on(v@, sep).len(),
        forall|k: int|
            0 <= k < r.len() ==> {
                &&& (#[trigger] r[k]).0 <= r[k].1 <= v.len()
                &&& v@.subrange(r[k].0 as int, r[k].1 as int) == split_on(v@, sep)[k]
            },
{
    let mut r: Vec<(usize, usize)> = Vec::new();
    let mut start: usize = 0;
    let mut i: usize = 0;
    let n = v.len();
    proof {
        assert(v@.take(0) == Seq::<char>::empty());
    }
    while i < n
        invariant
            n == v.len(),
            start <= i <= n,
            split_on(v@.take(i as int), sep).len() == r.len() + 1,
            split_on(v@.take(i as int), sep).last() == v@.subrange(start as int, i as int),
            forall|k: int|
                0 <= k < r.len() ==> {
                    &&& (#[trigger] r[k]).0 <= r[k].1 <= start
                    &&& v@.subrange(r[k].0 as int, r[k].1 as int) == split_on(
                        v@.take(i as int),
                        sep,
                    )[k]
                },
        decreases n - i,
    {
        let ghost before = split_on(v@.take(i as int), sep);
        let ghost old_r = r@;
        assert(v@.take(i + 1).drop_last() == v@.take(i as int));
        assert(v@.take(i + 1).last() == v@[i as int]);
        let ghost after = split_on(v@.take(i + 1), sep);
        if v[i] == sep {
            assert(after == before.push(Seq::<char>::empty()));
            r.push((start, i));
            start = i + 1;
            assert forall|k: int| 0 <= k < r.len() implies {
                &&& (#[trigger] r[k]).0 <= r[k].1 <= start
                &&& v@.subrange(r[k].0 as int, r[k].1 as int) == after[k]
            } by {
                if k < old_r.len() {
                    assert(r[k] == old_r[k]);
                }
            }
            assert(v@.subrange(start as int, i + 1) =~= Seq::<char>::empty());
        } else {
            assert(after == before.update(before.len() - 1, before.last().push(v@[i as int])));
            assert(v@.subrange(start as int, i + 1) == v@.subrange(start as int, i as int).push(
                v@[i as int],
            ));
            assert forall|k: int| 0 <= k < r.len() implies {
                &&& (#[trigger] r[k]).0 <= r[k].1 <= start
                &&& v@.subrange(r[k].0 as int, r[k].1 as int) == after[k]
            } by {
                assert(after[k] == before[k]);
            }
        }
        i = i + 1;
    }
    let ghost old_r = r@;
    let ghost fin = split_on(v@.take(n as int), sep);
    r.push((start, n));
    assert(v@.take(n as int) == v@);
    assert forall|k: int| 0 <= k < r.len() implies {
        &&& (#[trigger] r[k]).0 <= r[k].1 <= v.len()
        &&& v@.subrange(r[k].0 as int, r[k].1 as int) == split_on(v@, sep)[k]
    } by {
        if k < old_r.len() {
            assert(r[k] == old_r[k]);
        } else {
            assert(k == fin.len() - 1);
        }
    }
    r
}

/// A copy of `v[lo..hi]`.
fn copy_range(v: &Vec<char>, lo: usize, hi: usize) -> (r: Vec<char>)
    requires
        lo <= hi <= v.len(),
    ensures
        r@ == v@.subrange(lo as int, hi as int),
{
    let mut r: Vec<char> = Vec::new();
    let mut i = lo;
    while i < hi
        invariant
            lo <= i <= hi <= v.len(),
            r@ == v@.subrange(lo as int, i as int),
        decreases hi - i,
    {
        r.push(v[i]);
        assert(v@.subrange(lo as int, i + 1) == v@.subrange(lo as int, i as int).push(v@[i as int]));
        i = i + 1;
    }
    r
}

/// The position of the first `c` in `v[lo..hi]`, relative to `lo`.
fn find_first(v: &Vec<char>, lo: usize, hi: usize, c: char) -> (r: Option<usize>)
    requires
        lo <= hi <= v.len(),
    ensures
        match r {
            Some(i) => first_index_of(v@.subrange(lo as int, hi as int), c) == Some(i as int),
            None => first_index_of(v@.subrange(lo as int, hi as int), c) is None,
        },
{
    let ghost d = v@.subrange(lo as int, hi as int);
    let mut i: usize = 0;
    while i < hi - lo
        invariant
            lo <= hi <= v.len(),
            d == v@.subrange(lo as int, hi as int),
            i <= hi - lo,
            forall|j: int| 0 <= j < i ==> d[j] != c,
        decreases hi - lo - i,
    {
        if v[lo + i] == c {
            assert(is_first_of(d, c, i as int));
            assert forall|j: int| is_first_of(d, c, j) implies j == i by {
                if j < i {
                } else if j > i {
                    assert(d[i as int] == c);
                }
            }
            return Some(i);
        }
        i = i + 1;
    }
    assert forall|j: int| !is_first_of(d, c, j) by {}
    None
}

impl EnvConfig {
    /// The default environment variable name.
    pub const DEFAULT_ENV_VAR: &'static str = "RUST_LOG";

    /// Parses a `RUST_LOG`-style filter string.
    ///
    /// The string is a comma-separated list of directives: `level` sets the
    /// global level and `module=level` sets a module-specific level. Levels
    /// are case-insensitive: `DEBUG`, `Debug`, `debug` all work.
    pub fn parse(input: &str) -> (r: Result<Self, EnvParseError>)
        ensures
            parsed_as(r, parse_env(input@)),
    {
        let all = chars_of(input);
        let (ta, tb) = trim_bounds(&all, 0, all.len());
        proof {
            assert(all@.subrange(0, all@.len() as int) == input@);
        }
        if ta == tb {
            let empty: Vec<(String, LevelFilter)> = Vec::new();
            assert(modules_view(empty@) =~= Seq::<(Seq<char>, LevelFilter)>::empty());
            return Ok(EnvConfig { global_level: None, module_levels: empty });
        }
        let v = copy_range(&all, ta, tb);
        let pieces = split_ranges(&v, ',');
        let ghost ps = split_on(v@, ',');
        let mut global_level: Option<LevelFilter> = None;
        let mut module_levels: Vec<(String, LevelFilter)> = Vec::new();
        let mut k: usize = 0;
        proof {
            assert(ps.take(0) == Seq::<Seq<char>>::empty());
            assert(modules_view(module_levels@) == Seq::<(Seq<char>, LevelFilter)>::empty());
        }
        while k < pieces.len()
            invariant
                v@ == trim(input@),
                ps == split_on(v@, ','),
                pieces.len() == ps.len(),
                k <= pieces.len(),
                forall|j: int|
                    0 <= j < pieces.len() ==> {
                        &&& (#[trigger] pieces[j]).0 <= pieces[j].1 <= v.len()
                        &&& v@.subrange(pieces[j].0 as int, pieces[j].1 as int) == ps[j]
                    },
                read_pieces(ps.take(k as int)) == Ok::<EnvSpec, EnvFailure>(
                    EnvSpec { global: global_level, modules: modules_view(module_levels@) },
                ),
            decreases pieces.len() - k,
        {
            let (lo, hi) = pieces[k];
            assert(ps.take(k + 1).drop_last() == ps.take(k as int));
            assert(ps.take(k + 1).last() == ps[k as int]);
            let ghost st = EnvSpec { global: global_level, modules: modules_view(module_levels@) };
            let (a, b) = trim_bounds(&v, lo, hi);
            let ghost d = v@.subrange(a as int, b as int);
            if a == b {
                k = k + 1;
                continue;
            }
            match find_first(&v, a, b, '=') {
                Some(i) => {
                    let eq = a + i;
                    assert(d.take(i as int) == v@.subrange(a as int, eq as int));
                    assert(d.skip(i + 1) == v@.subrange(eq + 1, b as int));
                    let (ma, mb) = trim_bounds(&v, a, eq);
                    let (la, lb) = trim_bounds(&v, eq + 1, b);
                    if ma == mb {
                        let text = string_of_range(&v, a, b);
                        proof {
                            lemma_read_pieces_err(ps, k + 1);
                        }
                        return Err(EnvParseError::EmptyModule(text));
                    }
                    match parse_level_range(&v, la, lb) {
                        Some(level) => {
                            let module = string_of_range(&v, ma, mb);
                            let ghost old_levels = module_levels@;
                            module_levels.push((module, level));
                            assert(modules_view(module_levels@) == modules_view(old_levels).push(
                                (v@.subrange(ma as int, mb as int), level),
                            ));
                        },
                        None => {
                            let text = string_of_range(&v, la, lb);
                            proof {
                                lemma_read_pieces_err(ps, k + 1);
                            }
                            return Err(EnvParseError::InvalidLevel(text));
                        },
                    }
                },
                None => {
                    match parse_level_range(&v, a, b) {
                        Some(level) => {
                            if global_level.is_some() {
                                let text = string_of_range(&v, a, b);
                                proof {
                                    lemma_read_pieces_err(ps, k + 1);
                                }
                                return Err(EnvParseError::DuplicateGlobalLevel(text));
                            }
                            global_level = Some(level);
                        },
                        None => {
                            let text = string_of_range(&v, a, b);
                            proof {
                                lemma_read_pieces_err(ps, k + 1);
                            }
                            return Err(EnvParseError::InvalidLevel(text));
                        },
                    }
                },
            }
            k = k + 1;
        }
        assert(ps.take(pieces.len() as int) == ps);
        Ok(EnvConfig { global_level, module_levels })
    }

    /// The outcome of reading the variable `var_name`, whose value in the
    /// environment is `lookup`: `None` when it is not set, the parse of its
    /// value when it is, and `InvalidUnicode` naming the variable when its
    /// value is not Unicode.
    pub fn from_env(var_name: &str, lookup: EnvLookup) -> (r: Option<Result<Self, EnvParseError>>)
        ensures
            match env_outcome(var_name@, lookup) {
                None => r is None,
                Some(o) => r matches Some(p) && parsed_as(p, o),
            },
    {
        match lookup {
            EnvLookup::NotPresent => None,
            EnvLookup::NotUnicode => Some(Err(EnvParseError::InvalidUnicode(String::from_str(var_name)))),
            EnvLookup::Present(v) => Some(Self::parse(v.as_str())),
        }
    }

    /// The outcome of reading `RUST_LOG`, whose value in the environment is
    /// `lookup` (see `from_env`).
    pub fn from_default_env(lookup: EnvLookup) -> (r: Option<Result<Self, EnvParseError>>)
        ensures
            match env_outcome(Self::DEFAULT_ENV_VAR@, lookup) {
                None => r is None,
                Some(o) => r matches Some(p) && parsed_as(p, o),
            },
    {
        Self::from_env(Self::DEFAULT_ENV_VAR, lookup)
    }

    /// Returns the global log level, if one was specified.
    pub fn global_level(&self) -> (r: Option<LevelFilter>)
        ensures
            r == self@.global,
    {
        self.global_level
    }

    /// Returns the module-specific level overrides.
    pub fn module_levels(&self) -> (r: &[(String, LevelFilter)])
        ensures
            modules_view(r@) == self@.modules,
    {
        self.module_levels.as_slice()
    }
}


// ─── Laws ─────────────────────────────────────────────────────────────────

/// Level names are case-insensitive: two names that differ only in the case
/// of their letters denote the same level (or are both refused).
pub proof fn law_level_names_case_insensitive(a: Seq<char>, b: Seq<char>)
    requires
        lower(a) == lower(b),
    ensures
        level_of_name(a) == level_of_name(b),
        level_of_name(a) == level_of_name(lower(a)),
{
    assert(lower(lower(a)) =~= lower(a));
}

} // verus!
