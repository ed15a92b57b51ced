use vstd::prelude::*;
use crate::level::{Level, all_level, debug_level, verbose_level, info_level, warn_level,
    error_level, fatal_level, same_name};

verus! {

/// What `str::to_uppercase` makes of a string.
pub uninterp spec fn upper_of(s: Seq<char>) -> Seq<char>;

pub open spec fn all_ascii(s: Seq<char>) -> bool {
    forall|i: int| 0 <= i < s.len() ==> (s[i] as u32) < 128
}

/// `s` with each ASCII lower-case letter replaced by its capital.
pub open spec fn ascii_upper(s: Seq<char>) -> Seq<char> {
    Seq::new(
        s.len(),
        |i: int|
            if 'a' <= s[i] && s[i] <= 'z' {
                ((s[i] as u32) - 32) as char
            } else {
                s[i]
            },
    )
}

/// Relies on `str::to_uppercase`: its result depends on the characters alone,
/// the empty string stays empty, and a string of ASCII characters maps each
/// lower-case letter to its capital and keeps the rest.
#[verifier::external_body]
fn to_upper(s: &str) -> (r: String)
    ensures
        r@ == upper_of(s@),
        s@.len() == 0 ==> r@.len() == 0,
        all_ascii(s@) ==> r@ == ascii_upper(s@),
{
    s.to_uppercase()
}

/// The name-to-level table that a sequence of distinct-named levels stands for.
pub open spec fn table_of(s: Seq<Level>) -> Map<Seq<char>, Level>
    decreases s.len(),
{
    if s.len() == 0 {
        Map::empty()
    } else {
        table_of(s.drop_last()).insert(s.last().0@, s.last())
    }
}

pub open spec fn names_distinct(s: Seq<Level>) -> bool {
    forall|i: int, j: int| 0 <= i < j < s.len() ==> s[i].0@ != s[j].0@
}

/// The level a name resolves to: the registered one, or `ALL` when none is.
pub open spec fn resolve(table: Map<Seq<char>, Level>, key: Seq<char>) -> Level {
    if table.contains_key(key) {
        table[key]
    } else {
        all_level()
    }
}

/// `table` with the seven built-in levels registered under their names.
pub open spec fn with_builtins(table: Map<Seq<char>, Level>) -> Map<Seq<char>, Level> {
    table.insert(debug_level().0@, debug_level()).insert(
        verbose_level().0@,
        verbose_level(),
    ).insert(info_level().0@, info_level()).insert(warn_level().0@, warn_level()).insert(
        error_level().0@,
        error_level(),
    ).insert(fatal_level().0@, fatal_level()).insert(all_level().0@, all_level())
}

/// The table holding the seven built-in levels alone.
pub open spec fn builtin_table() -> Map<Seq<char>, Level> {
    with_builtins(Map::empty())
}

proof fn lemma_table_at(s: Seq<Level>, i: int)
    requires
        names_distinct(s),
        0 <= i < s.len(),
    ensures
        table_of(s).contains_key(s[i].0@),
        table_of(s)[s[i].0@] == s[i],
    decreases s.len(),
{
    if i < s.len() - 1 {
        lemma_table_at(s.drop_last(), i);
    }
}

proof fn lemma_table_absent(s: Seq<Level>, key: Seq<char>)
    requires
        forall|j: int| 0 <= j < s.len() ==> s[j].0@ != key,
    ensures
        !table_of(s).contains_key(key),
    decreases s.len(),
{
    if s.len() > 0 {
        lemma_table_absent(s.drop_last(), key);
    }
}

proof fn lemma_table_push(s: Seq<Level>, l: Level)
    requires
        names_distinct(s),
        forall|j: int| 0 <= j < s.len() ==> s[j].0@ != l.0@,
    ensures
        names_distinct(s.push(l)),
        table_of(s.push(l)) == table_of(s).insert(l.0@, l),
{
    assert(s.push(l).drop_last() =~= s);
}

proof fn lemma_table_update(s: Seq<Level>, i: int, l: Level)
    requires
        names_distinct(s),
        0 <= i < s.len(),
        s[i].0@ == l.0@,
    ensures
        names_distinct(s.update(i, l)),
        table_of(s.update(i, l)) == table_of(s).insert(l.0@, l),
    decreases s.len(),
{
    let u = s.update(i, l);
    if i == s.len() - 1 {
        assert(u.drop_last() =~= s.drop_last());
        assert(table_of(u) =~= table_of(s).insert(l.0@, l));
    } else {
        assert(u.drop_last() =~= s.drop_last().update(i, l));
        lemma_table_update(s.drop_last(), i, l);
        assert(table_of(u) =~= table_of(s).insert(l.0@, l));
    }
}

/// With `ALL` as the threshold, every level passes.
pub proof fn lemma_all_threshold_passes_every_level(r: Levels, l: Level)
    requires
        r.current == all_level(),
    ensures
        l.1 >= r.current.1,
{
}

/// A configured value whose upper-case form names no registered level
/// resolves to `ALL`.
pub proof fn lemma_unregistered_value_resolves_to_all(r: Levels, var: Seq<char>)
    requires
        !r.table().contains_key(upper_of(var)),
    ensures
        resolve(r.table(), upper_of(var)) == all_level(),
{
}

/// A configured value whose upper-case form is the name of a registered
/// level resolves to that level.
pub proof fn lemma_registered_value_resolves_to_level(r: Levels, l: Level, var: Seq<char>)
    requires
        r.table().contains_key(l.0@),
        r.table()[l.0@] == l,
        upper_of(var) == l.0@,
    ensures
        resolve(r.table(), upper_of(var)) == l,
{
}

/// Registering a level named by the configured value makes it the threshold
/// that `add` resolves.
pub proof fn lemma_add_rebinds_threshold(r: Levels, level: Level, var: Seq<char>)
    requires
        upper_of(var) == level.0@,
    ensures
        resolve(r.table().insert(level.0@, level), upper_of(var)) == level,
{
}

/// The registry of known levels and the active threshold.
#[derive(Debug, Clone)]
pub struct Levels {
    pub levels: Vec<Level>,
    pub current: Level,
}

impl Levels {
    /// The registered levels, by name.
    pub open spec fn table(&self) -> Map<Seq<char>, Level> {
        table_of(self.levels@)
    }

    pub open spec fn wf(&self) -> bool {
        names_distinct(self.levels@)
    }

    /// A registry of the seven built-in levels, whose threshold is the level
    /// that the configured value `var` names (in any case), or `ALL`.
    pub fn new(var: &str) -> (r: Levels)
        ensures
            r.wf(),
            r.table() == builtin_table(),
            r.current == resolve(builtin_table(), upper_of(var@)),
            all_ascii(var@) ==> r.current == resolve(builtin_table(), ascii_upper(var@)),
            var@.len() == 0 ==> r.current == all_level(),
    {
        let mut levels = Levels { levels: Vec::new(), current: Level::all() };
        proof {
            assert(levels.table() =~= Map::empty());
        }
        levels.add_defaults(var);
        levels.current = levels.from_env(var);
        proof {
            reveal_strlit("ALL");
            reveal_strlit("DEBUG");
            reveal_strlit("VERBOSE");
            reveal_strlit("INFO");
            reveal_strlit("WARN");
            reveal_strlit("ERROR");
            reveal_strlit("FATAL");
            if var@.len() == 0 {
                assert("ALL"@.len() == 3 && "DEBUG"@.len() == 5 && "VERBOSE"@.len() == 7);
                assert("INFO"@.len() == 4 && "WARN"@.len() == 4);
                assert("ERROR"@.len() == 5 && "FATAL"@.len() == 5);
                assert(!builtin_table().contains_key(Seq::<char>::empty()));
            }
        }
        levels
    }

    /// The level that the configured value `var` names once upper-cased, or
    /// `ALL` when no level of that name is registered.
    pub fn from_env(&self, var: &str) -> (r: Level)
        requires
            self.wf(),
        ensures
            r == resolve(self.table(), upper_of(var@)),
            all_ascii(var@) ==> r == resolve(self.table(), ascii_upper(var@)),
            var@.len() == 0 ==> r == resolve(self.table(), Seq::empty()),
    {
        let key = to_upper(var);
        assert(var@.len() == 0 ==> key@ =~= Seq::<char>::empty());
        self.lookup(key.as_str())
    }

    /// The registered level named exactly `key`, or `ALL`.
    pub fn lookup(&self, key: &str) -> (r: Level)
        requires
            self.wf(),
        ensures
            r == resolve(self.table(), key@),
    {
        let mut i: usize = 0;
        while i < self.levels.len()
            invariant
                self.wf(),
                i <= self.levels@.len(),
                forall|j: int| 0 <= j < i ==> self.levels@[j].0@ != key@,
            decreases self.levels@.len() - i,
        {
            if same_name(self.levels[i].0, key) {
                proof {
                    lemma_table_at(self.levels@, i as int);
                }
                return self.levels[i];
            }
            i += 1;
        }
        proof {
            lemma_table_absent(self.levels@, key@);
        }
        Level::all()
    }

    /// Registers the seven built-in levels, replacing levels of the same
    /// names, and resolves the threshold again from the configured value `var`.
    fn add_defaults(&mut self, var: &str)
        requires
            old(self).wf(),
        ensures
            final(self).wf(),
            final(self).table() == with_builtins(old(self).table()),
            final(self).current == resolve(final(self).table(), upper_of(var@)),
    {
        self.add(&Level::debug(), var);
        self.add(&Level::verbose(), var);
        self.add(&Level::info(), var);
        self.add(&Level::warn(), var);
        self.add(&Level::error(), var);
        self.add(&Level::fatal(), var);
        self.add(&Level::all(), var);
    }

    /// Registers `level` under its name, replacing a level of the same name,
    /// then resolves the threshold again from the configured value `var`.
    pub fn add(&mut self, level: &Level, var: &str)
        requires
            old(self).wf(),
        ensures
            final(self).wf(),
            final(self).table() == old(self).table().insert(level.0@, *level),
            final(self).current == resolve(final(self).table(), upper_of(var@)),
    {
        self.put(level);
        self.current = self.from_env(var);
    }

    fn put(&mut self, level: &Level)
        requires
            old(self).wf(),
        ensures
            final(self).wf(),
            final(self).table() == old(self).table().insert(level.0@, *level),
    {
        let mut i: usize = 0;
        while i < self.levels.len()
            invariant
                self.wf(),
                self.levels@ == old(self).levels@,
                i <= self.levels@.len(),
                forall|j: int| 0 <= j < i ==> self.levels@[j].0@ != level.0@,
            decreases self.levels@.len() - i,
        {
            if same_name(self.levels[i].0, level.0) {
                proof {
                    lemma_table_update(self.levels@, i as int, *level);
                }
                self.levels.set(i, *level);
                return;
            }
            i += 1;
        }
        proof {
            lemma_table_push(self.levels@, *level);
        }
        self.levels.push(*level);
    }

    /// Whether a message at `msg_level` passes the active threshold.
    pub fn is_in_level(&self, msg_level: Level) -> (r: bool)
        ensures
            r == (msg_level.1 >= self.current.1),
    {
        msg_level.1 >= self.current.1
    }
}

} // verus!
