//! Log filtering engine with global and per-module level overrides.
//!
//! A module path `m` covers a target `t` when `t == m` or `t` starts with
//! `m::`. When several configured modules cover a target, the longest one
//! decides; when none does, the global level decides.

use vstd::prelude::*;

use crate::level::{admits, level_passes, Level, LevelFilter};
use crate::record::Metadata;
use crate::env::modules_view;
use crate::text::{chars_of, push_char, str_equal};

verus! {

// ─── Model ────────────────────────────────────────────────────────────────

/// `module` covers `target`: they are equal, or `target` is `module::…`.
pub open spec fn covers(module: Seq<char>, target: Seq<char>) -> bool {
    ||| target == module
    ||| (target.len() >= module.len() + 2 && target.take(module.len() + 2int) == module + seq![':', ':'])
}

/// `k` is the longest module of `modules` that covers `target`.
pub open spec fn is_best_module(modules: Map<Seq<char>, LevelFilter>, target: Seq<char>, k: Seq<char>) -> bool {
    &&& modules.contains_key(k)
    &&& covers(k, target)
    &&& forall|k2: Seq<char>|
        #![trigger modules.contains_key(k2)]
        modules.contains_key(k2) && covers(k2, target) ==> k2.len() <= k.len()
}

/// The level set for the longest configured module that covers `target`.
pub open spec fn module_level_for(modules: Map<Seq<char>, LevelFilter>, target: Seq<char>) -> Option<LevelFilter> {
    if exists|k: Seq<char>| is_best_module(modules, target, k) {
        Some(modules[choose|k: Seq<char>| is_best_module(modules, target, k)])
    } else {
        None
    }
}

/// The abstract state of a filter: a global level and a level per module.
pub struct FilterSpec {
    pub global: LevelFilter,
    pub modules: Map<Seq<char>, LevelFilter>,
}

/// The level that decides records from `target`.
pub open spec fn effective_level(f: FilterSpec, target: Seq<char>) -> LevelFilter {
    match module_level_for(f.modules, target) {
        Some(l) => l,
        None => f.global,
    }
}

/// A record of `level` from `target` passes the filter.
pub open spec fn filter_allows(f: FilterSpec, level: Level, target: Seq<char>) -> bool {
    admits(effective_level(f, target), level)
}

/// The map built by inserting the entries in order (later entries win).
pub open spec fn entries_map(v: Seq<(String, LevelFilter)>) -> Map<Seq<char>, LevelFilter>
    decreases v.len(),
{
    if v.len() == 0 {
        Map::empty()
    } else {
        entries_map(v.drop_last()).insert(v.last().0@, v.last().1)
    }
}

/// The filter `f` after `with_module` for each `(module, level)` of
/// `settings`, in order.
pub open spec fn with_modules(f: FilterSpec, settings: Seq<(Seq<char>, LevelFilter)>) -> FilterSpec
    decreases settings.len(),
{
    if settings.len() == 0 {
        f
    } else {
        let g = with_modules(f, settings.drop_last());
        FilterSpec { global: g.global, modules: g.modules.insert(settings.last().0, settings.last().1) }
    }
}

/// The level set last for `module` in `settings`, if it is set at all.
pub open spec fn last_setting(settings: Seq<(Seq<char>, LevelFilter)>, module: Seq<char>) -> Option<LevelFilter>
    decreases settings.len(),
{
    if settings.len() == 0 {
        None
    } else if settings.last().0 == module {
        Some(settings.last().1)
    } else {
        last_setting(settings.drop_last(), module)
    }
}

// ─── Debug text ───────────────────────────────────────────────────────────

/// What `char::escape_debug` yields for `c`.
pub uninterp spec fn char_escape_debug(c: char) -> Seq<char>;

/// `char::escape_debug` of `c`, collected into a string. Which characters
/// it escapes, and how, comes from std's Unicode tables; the contract only
/// names the result.
#[verifier::external_body]
fn escape_debug_text(c: char) -> (r: String)
    ensures
        r@ == char_escape_debug(c),
{
    c.escape_debug().to_string()
}

/// How one character appears in the debug text of a string: a single quote
/// as itself, every other character as `char::escape_debug` writes it (the
/// debug text of a string escapes as that of a character does, except that
/// it leaves single quotes alone).
pub open spec fn debug_escape_char(c: char) -> Seq<char> {
    if c == '\'' {
        seq!['\'']
    } else {
        char_escape_debug(c)
    }
}

/// The escaped characters of `s`.
pub open spec fn debug_escape(s: Seq<char>) -> Seq<char>
    decreases s.len(),
{
    if s.len() == 0 {
        Seq::empty()
    } else {
        debug_escape(s.drop_last()) + debug_escape_char(s.last())
    }
}

/// No later setting names the module of setting `i`.
pub open spec fn is_last_setting(v: Seq<(Seq<char>, LevelFilter)>, i: int) -> bool {
    forall|j: int| i < j < v.len() ==> #[trigger] v[j].0 != v[i].0
}

/// The positions among the first `k` settings that no later setting
/// overrides, in order.
pub open spec fn kept_positions(v: Seq<(Seq<char>, LevelFilter)>, k: nat) -> Seq<int>
    decreases k,
{
    if k == 0 {
        Seq::empty()
    } else if is_last_setting(v, k - 1) {
        kept_positions(v, (k - 1) as nat).push(k - 1)
    } else {
        kept_positions(v, (k - 1) as nat)
    }
}

/// `"<escaped module>": Level` for setting `i`, whose module escapes as
/// `escaped[i]`.
pub open spec fn debug_entry(v: Seq<(Seq<char>, LevelFilter)>, escaped: Seq<Seq<char>>, i: int) -> Seq<char> {
    seq!['"'] + escaped[i] + seq!['"', ':', ' '] + v[i].1.variant_name()
}

/// The entries of the settings at `positions`, separated by `, `.
pub open spec fn debug_entries(
    v: Seq<(Seq<char>, LevelFilter)>,
    escaped: Seq<Seq<char>>,
    positions: Seq<int>,
) -> Seq<char>
    decreases positions.len(),
{
    if positions.len() == 0 {
        Seq::empty()
    } else if positions.len() == 1 {
        debug_entry(v, escaped, positions[0])
    } else {
        debug_entries(v, escaped, positions.drop_last()) + seq![',', ' '] + debug_entry(
            v,
            escaped,
            positions.last(),
        )
    }
}

/// The module levels as `{"m": Level, …}`, each module's name written as
/// `escaped` holds it: each module once, at the level set last for it, in
/// the order of those last settings.
pub open spec fn debug_modules_with(v: Seq<(Seq<char>, LevelFilter)>, escaped: Seq<Seq<char>>) -> Seq<char> {
    seq!['{'] + debug_entries(v, escaped, kept_positions(v, v.len())) + seq!['}']
}

/// The debug text of the module levels, names escaped as in a string's
/// debug text.
pub open spec fn debug_modules(v: Seq<(Seq<char>, LevelFilter)>) -> Seq<char> {
    debug_modules_with(v, Seq::new(v.len(), |i: int| debug_escape(v[i].0)))
}

/// The debug text of a filter:
/// `Filter { global_level: Level, module_levels: {…} }`.
pub open spec fn filter_debug(global: LevelFilter, settings: Seq<(Seq<char>, LevelFilter)>) -> Seq<char> {
    seq![
        'F', 'i', 'l', 't', 'e', 'r', ' ', '{', ' ', 'g', 'l', 'o', 'b', 'a', 'l', '_', 'l', 'e', 'v',
        'e', 'l', ':', ' ',
    ] + global.variant_name() + seq![
        ',', ' ', 'm', 'o', 'd', 'u', 'l', 'e', '_', 'l', 'e', 'v', 'e', 'l', 's', ':', ' ',
    ] + debug_modules(settings) + seq![' ', '}']
}

/// The escaped characters of `text`, as in its debug text.
fn debug_escaped(text: &str) -> (r: String)
    ensures
        r@ == debug_escape(text@),
{
    let v = chars_of(text);
    let mut s = String::new();
    let mut i: usize = 0;
    while i < v.len()
        invariant
            i <= v.len(),
            v@ == text@,
            s@ == debug_escape(v@.take(i as int)),
        decreases v.len() - i,
    {
        let c = v[i];
        if c == '\'' {
            push_char(&mut s, '\'');
        } else {
            let e = escape_debug_text(c);
            s.append(e.as_str());
        }
        assert(v@.take(i + 1).drop_last() =~= v@.take(i as int));
        assert(v@.take(i + 1).last() == c);
        assert(s@ =~= debug_escape(v@.take(i + 1)));
        i = i + 1;
    }
    assert(v@.take(v.len() as int) =~= v@);
    s
}

/// The module levels of `settings` as `{"m": Level, …}`, where
/// `escaped[i]` is how the module of setting `i` is written: each module
/// once, at the level set last for it, in the order of those last settings.
pub fn debug_modules_text(settings: &Vec<(String, LevelFilter)>, escaped: &Vec<String>) -> (s: String)
    requires
        escaped.len() == settings.len(),
    ensures
        s@ == debug_modules_with(modules_view(settings@), Seq::new(escaped.len() as nat, |i: int| escaped@[i]@)),
{
    let ghost v = modules_view(settings@);
    let ghost e = Seq::new(escaped.len() as nat, |i: int| escaped@[i]@);
    let mut s = String::new();
    push_char(&mut s, '{');
    let n = settings.len();
    let mut first = true;
    let mut i: usize = 0;
    while i < n
        invariant
            n == settings.len(),
            n == escaped.len(),
            v == modules_view(settings@),
            e == Seq::new(escaped.len() as nat, |i: int| escaped@[i]@),
            v.len() == n,
            i <= n,
            s@ == seq!['{'] + debug_entries(v, e, kept_positions(v, i as nat)),
            first == (kept_positions(v, i as nat).len() == 0),
        decreases n - i,
    {
        let mut last = true;
        let mut j: usize = i + 1;
        while j < n
            invariant
                n == settings.len(),
                v == modules_view(settings@),
                v.len() == n,
                i < n,
                i < j <= n,
                last == (forall|k: int| i < k < j ==> #[trigger] v[k].0 != v[i as int].0),
            decreases n - j,
        {
            assert(v[j as int].0 == settings@[j as int].0@);
            assert(v[i as int].0 == settings@[i as int].0@);
            if str_equal(settings[j].0.as_str(), settings[i].0.as_str()) {
                last = false;
            }
            j = j + 1;
        }
        assert(last == is_last_setting(v, i as int));
        let ghost kept = kept_positions(v, i as nat);
        if last {
            if !first {
                push_char(&mut s, ',');
                push_char(&mut s, ' ');
            }
            let ghost mid = s@;
            proof {
                reveal_strlit(": ");
                assert(": "@ =~= seq![':', ' ']);
            }
            push_char(&mut s, '"');
            s.append(escaped[i].as_str());
            push_char(&mut s, '"');
            s.append(": ");
            let name = settings[i].1.variant_str();
            assert(v[i as int].1 == settings@[i as int].1);
            assert(e[i as int] == escaped@[i as int]@);
            s.append(name);
            assert(s@ =~= mid + debug_entry(v, e, i as int));
            assert(kept_positions(v, (i + 1) as nat) == kept.push(i as int));
            assert(kept.push(i as int).drop_last() =~= kept);
            assert(kept.push(i as int).last() == i as int);
            proof {
                if kept.len() == 0 {
                    assert(kept.push(i as int)[0] == i as int);
                    assert(debug_entries(v, e, kept) =~= Seq::<char>::empty());
                }
            }
            first = false;
        } else {
            assert(kept_positions(v, (i + 1) as nat) == kept);
        }
        i = i + 1;
    }
    push_char(&mut s, '}');
    assert(s@ =~= debug_modules_with(v, e));
    s
}

// ─── Lemmas ───────────────────────────────────────────────────────────────

/// Two modules of the same length that cover the same target are equal.
pub proof fn lemma_covers_same_len(a: Seq<char>, b: Seq<char>, t: Seq<char>)
    requires
        covers(a, t),
        covers(b, t),
        a.len() == b.len(),
    ensures
        a == b,
{
    assert(a =~= t.take(a.len() as int)) by {
        if t != a {
            assert forall|i: int| 0 <= i < a.len() implies a[i] == t.take(a.len() as int)[i] by {
                assert((a + seq![':', ':'])[i] == a[i]);
            }
        }
    }
    assert(b =~= t.take(b.len() as int)) by {
        if t != b {
            assert forall|i: int| 0 <= i < b.len() implies b[i] == t.take(b.len() as int)[i] by {
                assert((b + seq![':', ':'])[i] == b[i]);
            }
        }
    }
}

/// A module that covers a target is no longer than the target.
proof fn lemma_covers_len(a: Seq<char>, t: Seq<char>)
    requires
        covers(a, t),
    ensures
        a.len() <= t.len(),
{
}

/// Configuring `module` does not change how targets that it does not cover
/// are decided.
pub proof fn lemma_module_level_unaffected(
    modules: Map<Seq<char>, LevelFilter>,
    module: Seq<char>,
    level: LevelFilter,
    target: Seq<char>,
)
    requires
        !covers(module, target),
    ensures
        module_level_for(modules.insert(module, level), target) == module_level_for(modules, target),
{
    let m2 = modules.insert(module, level);
    assert forall|k: Seq<char>| is_best_module(m2, target, k) <==> is_best_module(modules, target, k) by {
        if is_best_module(m2, target, k) {
            assert(k != module);
            assert forall|k2: Seq<char>| #![trigger modules.contains_key(k2)]
                modules.contains_key(k2) && covers(k2, target) implies k2.len() <= k.len() by {
                assert(m2.contains_key(k2));
            }
        }
        if is_best_module(modules, target, k) {
            assert forall|k2: Seq<char>| #![trigger m2.contains_key(k2)]
                m2.contains_key(k2) && covers(k2, target) implies k2.len() <= k.len() by {
                if k2 != module {
                    assert(modules.contains_key(k2));
                }
            }
        }
    }
    if exists|k: Seq<char>| is_best_module(modules, target, k) {
        let k = choose|k: Seq<char>| is_best_module(modules, target, k);
        let k2 = choose|k2: Seq<char>| is_best_module(m2, target, k2);
        assert(is_best_module(m2, target, k));
        lemma_covers_same_len(k, k2, target);
        assert(k != module);
    }
}

// ─── Filter ───────────────────────────────────────────────────────────────

/// A filter that determines whether a log record should be processed.
///
/// Supports a global maximum level and per-module level overrides.
#[derive(Debug, Clone)]
pub struct Filter {
    /// The global maximum log level.
    global_level: LevelFilter,
    /// Per-module level overrides, in the order they were set; a later entry
    /// for the same module replaces an earlier one.
    module_levels: Vec<(String, LevelFilter)>,
}

impl View for Filter {
    type V = FilterSpec;

    closed spec fn view(&self) -> FilterSpec {
        FilterSpec { global: self.global_level, modules: entries_map(self.module_levels@) }
    }
}

/// Whether `module` covers `target`.
fn covers_exec(module: &Vec<char>, target: &Vec<char>) -> (b: bool)
    ensures
        b == covers(module@, target@),
{
    let m = module.len();
    let t = target.len();
    if m > t {
        return false;
    }
    let mut i: usize = 0;
    while i < m
        invariant
            m == module.len(),
            m <= t == target.len(),
            i <= m,
            forall|j: int| 0 <= j < i ==> module@[j] == target@[j],
        decreases m - i,
    {
        if module[i] != target[i] {
            assert(!covers(module@, target@)) by {
                if target@.len() >= m + 2 {
                    assert((module@ + seq![':', ':'])[i as int] == module@[i as int]);
                    assert(target@.take(m + 2)[i as int] == target@[i as int]);
                }
            }
            return false;
        }
        i = i + 1;
    }
    if m == t {
        assert(target@ =~= module@);
        return true;
    }
    if t - m >= 2 && target[m] == ':' && target[m + 1] == ':' {
        assert(target@.take(m + 2) =~= module@ + seq![':', ':']);
        true
    } else {
        assert(target@ != module@);
        assert(!covers(module@, target@)) by {
            if t >= m + 2 && target@.take(m + 2) == module@ + seq![':', ':'] {
                assert(target@.take(m + 2)[m as int] == target@[m as int]);
                assert(target@.take(m + 2)[m + 1] == target@[m + 1]);
            }
        }
        false
    }
}

impl Filter {
    /// The module settings, in the order they were made.
    pub closed spec fn settings(&self) -> Seq<(Seq<char>, LevelFilter)> {
        modules_view(self.module_levels@)
    }

    /// Creates a new filter with the given global level.
    pub fn new(level: LevelFilter) -> (f: Self)
        ensures
            f@.global == level,
            f@.modules == Map::<Seq<char>, LevelFilter>::empty(),
            f.settings() == Seq::<(Seq<char>, LevelFilter)>::empty(),
    {
        proof {
            assert(modules_view(Seq::<(String, LevelFilter)>::empty()) =~= Seq::<(Seq<char>, LevelFilter)>::empty());
        }
        Filter { global_level: level, module_levels: Vec::new() }
    }

    /// Adds a module-specific level override.
    ///
    /// The module path is matched as a prefix, so `"my_app"` will match
    /// `"my_app::db"`, `"my_app::api"`, etc.
    pub fn with_module(self, module: &str, level: LevelFilter) -> (f: Self)
        ensures
            f@.global == self@.global,
            f@.modules == self@.modules.insert(module@, level),
            f.settings() == self.settings().push((module@, level)),
    {
        let Filter { global_level, mut module_levels } = self;
        let ghost before = module_levels@;
        module_levels.push((String::from_str(module), level));
        assert(module_levels@.drop_last() == before);
        assert(modules_view(module_levels@) =~= modules_view(before).push((module@, level)));
        Filter { global_level, module_levels }
    }

    /// The debug text of the filter:
    /// `Filter { global_level: Info, module_levels: {"hyper": Warn} }`.
    pub fn debug_text(&self) -> (s: String)
        ensures
            s@ == filter_debug(self@.global, self.settings()),
    {
        proof {
            reveal_strlit("Filter { global_level: ");
            reveal_strlit(", module_levels: ");
            reveal_strlit(" }");
        }
        let ghost v = self.settings();
        let n = self.module_levels.len();
        let mut escaped: Vec<String> = Vec::new();
        let mut i: usize = 0;
        while i < n
            invariant
                n == self.module_levels.len(),
                v == self.settings(),
                v.len() == n,
                i <= n,
                escaped.len() == i,
                forall|k: int| 0 <= k < i ==> #[trigger] escaped@[k]@ == debug_escape(v[k].0),
            decreases n - i,
        {
            assert(v[i as int].0 == self.module_levels@[i as int].0@);
            let e = debug_escaped(self.module_levels[i].0.as_str());
            escaped.push(e);
            i = i + 1;
        }
        let modules = debug_modules_text(&self.module_levels, &escaped);
        assert(Seq::new(escaped.len() as nat, |k: int| escaped@[k]@) =~= Seq::new(
            v.len(),
            |k: int| debug_escape(v[k].0),
        ));
        let mut s = String::new();
        s.append("Filter { global_level: ");
        s.append(self.global_level.variant_str());
        s.append(", module_levels: ");
        s.append(modules.as_str());
        s.append(" }");
        assert(s@ =~= filter_debug(self@.global, self.settings()));
        s
    }

    /// Returns the global level filter.
    pub fn global_level(&self) -> (l: LevelFilter)
        ensures
            l == self@.global,
    {
        self.global_level
    }

    /// Determines whether a log record with the given metadata should be logged.
    pub fn is_enabled(&self, metadata: &Metadata) -> (b: bool)
        ensures
            b == filter_allows(self@, metadata.level, metadata.target@),
    {
        match self.find_module_level(metadata.target.as_str()) {
            Some(module_level) => level_passes(metadata.level, module_level),
            None => level_passes(metadata.level, self.global_level),
        }
    }

    /// Finds the most specific module level for the given target.
    ///
    /// Uses longest-prefix matching so "my_app::db" matches before "my_app".
    fn find_module_level(&self, target: &str) -> (r: Option<LevelFilter>)
        ensures
            r == module_level_for(self@.modules, target@),
    {
        let t = chars_of(target);
        let entries = &self.module_levels;
        let mut best: Option<(usize, LevelFilter)> = None;
        let mut i: usize = 0;
        proof {
            assert(entries@.take(0) == Seq::<(String, LevelFilter)>::empty());
        }
        while i < entries.len()
            invariant
                t@ == target@,
                i <= entries.len(),
                entries == &self.module_levels,
                match best {
                    None => forall|k: Seq<char>|
                        #![trigger entries_map(entries@.take(i as int)).contains_key(k)]
                        entries_map(entries@.take(i as int)).contains_key(k) ==> !covers(k, t@),
                    Some((n, l)) => exists|k: Seq<char>|
                        is_best_module(entries_map(entries@.take(i as int)), t@, k) && k.len() == n
                            && entries_map(entries@.take(i as int))[k] == l,
                },
            decreases entries.len() - i,
        {
            let ghost m_before = entries_map(entries@.take(i as int));
            assert(entries@.take(i + 1).drop_last() == entries@.take(i as int));
            assert(entries@.take(i + 1).last() == entries@[i as int]);
            let ghost m_after = entries_map(entries@.take(i + 1));
            assert(m_after == m_before.insert(entries@[i as int].0@, entries@[i as int].1));
            let name = chars_of(entries[i].0.as_str());
            let level = entries[i].1;
            let ghost key = name@;
            if covers_exec(&name, &t) {
                let n = name.len();
                let replace = match best {
                    None => true,
                    Some((cur, _)) => n >= cur,
                };
                if replace {
                    proof {
                        assert forall|k2: Seq<char>| #![trigger m_after.contains_key(k2)]
                            m_after.contains_key(k2) && covers(k2, t@) implies k2.len() <= key.len() by {
                            if k2 != key {
                                assert(m_before.contains_key(k2));
                                match best {
                                    None => {},
                                    Some((cur, _)) => {
                                        let kb = choose|kb: Seq<char>|
                                            is_best_module(m_before, t@, kb) && kb.len() == cur
                                                && m_before[kb] == (best->0).1;
                                        assert(m_before.contains_key(k2));
                                    },
                                }
                            }
                        }
                        assert(is_best_module(m_after, t@, key));
                    }
                    best = Some((n, level));
                } else {
                    proof {
                        let cur = (best->0).0;
                        let lv = (best->0).1;
                        let kb = choose|kb: Seq<char>|
                            is_best_module(m_before, t@, kb) && kb.len() == cur && m_before[kb] == lv;
                        assert(kb != key);
                        assert forall|k2: Seq<char>| #![trigger m_after.contains_key(k2)]
                            m_after.contains_key(k2) && covers(k2, t@) implies k2.len() <= kb.len() by {
                            if k2 != key {
                                assert(m_before.contains_key(k2));
                            }
                        }
                        assert(is_best_module(m_after, t@, kb));
                    }
                }
            } else {
                proof {
                    match best {
                        None => {
                            assert forall|k: Seq<char>| #![trigger m_after.contains_key(k)]
                                m_after.contains_key(k) implies !covers(k, t@) by {
                                if k != key {
                                    assert(m_before.contains_key(k));
                                }
                            }
                        },
                        Some((cur, lv)) => {
                            let kb = choose|kb: Seq<char>|
                                is_best_module(m_before, t@, kb) && kb.len() == cur && m_before[kb] == lv;
                            assert(kb != key);
                            assert forall|k2: Seq<char>| #![trigger m_after.contains_key(k2)]
                                m_after.contains_key(k2) && covers(k2, t@) implies k2.len() <= kb.len() by {
                                if k2 != key {
                                    assert(m_before.contains_key(k2));
                                }
                            }
                            assert(is_best_module(m_after, t@, kb));
                        },
                    }
                }
            }
            i = i + 1;
        }
        assert(entries@.take(entries@.len() as int) == entries@);
        let ghost modules = self@.modules;
        match best {
            None => {
                proof {
                    assert forall|k: Seq<char>| !is_best_module(modules, target@, k) by {
                        if is_best_module(modules, target@, k) {
                            assert(modules.contains_key(k));
                        }
                    }
                }
                None
            },
            Some((n, l)) => {
                proof {
                    let kb = choose|kb: Seq<char>| is_best_module(modules, t@, kb) && kb.len() == n && modules[kb] == l;
                    let kc = choose|kc: Seq<char>| is_best_module(modules, target@, kc);
                    lemma_covers_same_len(kb, kc, t@);
                }
                Some(l)
            },
        }
    }
}

impl Default for Filter {
    fn default() -> (f: Self)
        ensures
            f@.global == LevelFilter::Info,
            f@.modules == Map::<Seq<char>, LevelFilter>::empty(),
    {
        Self::new(LevelFilter::Info)
    }
}

// ─── Laws ─────────────────────────────────────────────────────────────────

/// The longest configured module that covers a target decides it: a module
/// set on the target itself decides it, and setting a module leaves every
/// target it does not cover as it was.
pub proof fn law_module_override(f: FilterSpec, module: Seq<char>, level: LevelFilter, target: Seq<char>)
    ensures
        effective_level(FilterSpec { global: f.global, modules: f.modules.insert(module, level) }, module)
            == level,
        !covers(module, target) ==> effective_level(
            FilterSpec { global: f.global, modules: f.modules.insert(module, level) },
            target,
        ) == effective_level(f, target),
{
    let m2 = f.modules.insert(module, level);
    assert(is_best_module(m2, module, module)) by {
        assert forall|k2: Seq<char>| #![trigger m2.contains_key(k2)]
            m2.contains_key(k2) && covers(k2, module) implies k2.len() <= module.len() by {
            lemma_covers_len(k2, module);
        }
    }
    let kc = choose|kc: Seq<char>| is_best_module(m2, module, kc);
    lemma_covers_same_len(module, kc, module);
    if !covers(module, target) {
        lemma_module_level_unaffected(f.modules, module, level, target);
    }
}

/// A filter with no module overrides decides every target by its global
/// level, and whatever passes a filter, every more severe level passes too.
pub proof fn law_global_and_severity(f: FilterSpec, target: Seq<char>, level: Level, severer: Level)
    ensures
        f.modules == Map::<Seq<char>, LevelFilter>::empty() ==> effective_level(f, target) == f.global,
        filter_allows(f, level, target) && severer.rank() <= level.rank() ==> filter_allows(
            f,
            severer,
            target,
        ),
{
    if f.modules == Map::<Seq<char>, LevelFilter>::empty() {
        assert forall|k: Seq<char>| !is_best_module(f.modules, target, k) by {}
    }
}

/// A chain of `with_module` calls keeps the global level, and leaves each
/// module at the level its last call set (or as it was, when no call names
/// it): a later call for a module replaces an earlier one. With
/// `is_enabled`, the longest configured module covering a target decides it
/// at that level, and the global level decides the rest.
pub proof fn law_module_chain(f: FilterSpec, settings: Seq<(Seq<char>, LevelFilter)>, module: Seq<char>)
    ensures
        with_modules(f, settings).global == f.global,
        match last_setting(settings, module) {
            Some(l) => with_modules(f, settings).modules.contains_key(module) && with_modules(
                f,
                settings,
            ).modules[module] == l,
            None => with_modules(f, settings).modules.contains_key(module) == f.modules.contains_key(
                module,
            ) && (f.modules.contains_key(module) ==> with_modules(f, settings).modules[module]
                == f.modules[module]),
        },
    decreases settings.len(),
{
    if settings.len() > 0 {
        law_module_chain(f, settings.drop_last(), module);
    }
}

/// Setting a module twice is setting it once, to the second level.
pub proof fn law_module_set_twice(f: FilterSpec, module: Seq<char>, first: LevelFilter, second: LevelFilter)
    ensures
        f.modules.insert(module, first).insert(module, second) == f.modules.insert(module, second),
{
    assert(f.modules.insert(module, first).insert(module, second) =~= f.modules.insert(module, second));
}

/// Performing the settings `a` then `b` is performing `a + b`.
proof fn lemma_with_modules_append(
    f: FilterSpec,
    a: Seq<(Seq<char>, LevelFilter)>,
    b: Seq<(Seq<char>, LevelFilter)>,
)
    ensures
        with_modules(f, a + b) == with_modules(with_modules(f, a), b),
    decreases b.len(),
{
    if b.len() == 0 {
        assert(a + b =~= a);
    } else {
        lemma_with_modules_append(f, a, b.drop_last());
        assert((a + b).drop_last() =~= a + b.drop_last());
        assert((a + b).last() == b.last());
    }
}

/// The order of two `with_module` calls for different modules does not
/// matter.
pub proof fn law_module_chain_order(
    f: FilterSpec,
    before: Seq<(Seq<char>, LevelFilter)>,
    x: (Seq<char>, LevelFilter),
    y: (Seq<char>, LevelFilter),
    after: Seq<(Seq<char>, LevelFilter)>,
)
    requires
        x.0 != y.0,
    ensures
        with_modules(f, before + seq![x, y] + after) == with_modules(f, before + seq![y, x] + after),
{
    let g = with_modules(f, before);
    lemma_with_modules_append(f, before + seq![x, y], after);
    lemma_with_modules_append(f, before + seq![y, x], after);
    lemma_with_modules_append(f, before, seq![x, y]);
    lemma_with_modules_append(f, before, seq![y, x]);
    let xy = seq![x, y];
    let yx = seq![y, x];
    assert(xy.drop_last() =~= seq![x]);
    assert(yx.drop_last() =~= seq![y]);
    assert(seq![x].drop_last() =~= Seq::<(Seq<char>, LevelFilter)>::empty());
    assert(seq![y].drop_last() =~= Seq::<(Seq<char>, LevelFilter)>::empty());
    let e = Seq::<(Seq<char>, LevelFilter)>::empty();
    assert(with_modules(g, e) == g);
    assert(seq![x].last() == x && seq![y].last() == y && xy.last() == y && yx.last() == x);
    assert(with_modules(g, seq![x]).modules == g.modules.insert(x.0, x.1));
    assert(with_modules(g, seq![y]).modules == g.modules.insert(y.0, y.1));
    assert(with_modules(g, xy).modules == g.modules.insert(x.0, x.1).insert(y.0, y.1));
    assert(with_modules(g, yx).modules == g.modules.insert(y.0, y.1).insert(x.0, x.1));
    assert(with_modules(g, xy).modules =~= with_modules(g, yx).modules);
    assert(with_modules(g, xy) == with_modules(g, yx));
}

/// The modules of the entries, inserted in order, are those of the chain
/// of their settings.
proof fn lemma_entries_map_chain(global: LevelFilter, v: Seq<(String, LevelFilter)>)
    ensures
        (FilterSpec { global, modules: entries_map(v) }) == with_modules(
            FilterSpec { global, modules: Map::empty() },
            modules_view(v),
        ),
    decreases v.len(),
{
    if v.len() > 0 {
        lemma_entries_map_chain(global, v.drop_last());
        assert(modules_view(v.drop_last()) =~= modules_view(v).drop_last());
    } else {
        assert(modules_view(v) =~= Seq::<(Seq<char>, LevelFilter)>::empty());
    }
}

/// A filter is `Filter::new` of its global level followed by `with_module`
/// for each of its module settings, in the order they were made.
pub proof fn law_filter_is_module_chain(f: Filter)
    ensures
        f@ == with_modules(FilterSpec { global: f@.global, modules: Map::empty() }, f.settings()),
{
    lemma_entries_map_chain(f.global_level, f.module_levels@);
}

} // verus!
