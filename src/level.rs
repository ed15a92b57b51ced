use vstd::prelude::*;
use vstd::string::StrSliceExecFns;

verus! {

/// A named severity: its name and its ordinal. A message passes a
/// threshold when its ordinal is at least the threshold's.
#[derive(Debug, Clone, Copy)]
pub struct Level(pub &'static str, pub u32);

pub open spec fn all_level() -> Level {
    Level("ALL", 0)
}

pub open spec fn debug_level() -> Level {
    Level("DEBUG", 1)
}

pub open spec fn verbose_level() -> Level {
    Level("VERBOSE", 2)
}

pub open spec fn info_level() -> Level {
    Level("INFO", 3)
}

pub open spec fn warn_level() -> Level {
    Level("WARN", 4)
}

pub open spec fn error_level() -> Level {
    Level("ERROR", 5)
}

pub open spec fn fatal_level() -> Level {
    Level("FATAL", 6)
}

impl Level {
    pub fn name(&self) -> (r: &'static str)
        ensures
            r == self.0,
    {
        self.0
    }

    pub fn id(&self) -> (r: u32)
        ensures
            r == self.1,
    {
        self.1
    }

    /// The lowest built-in level; the threshold that lets everything through.
    pub fn all() -> (r: Level)
        ensures
            r == all_level(),
    {
        Level("ALL", 0)
    }

    pub fn debug() -> (r: Level)
        ensures
            r == debug_level(),
    {
        Level("DEBUG", 1)
    }

    pub fn verbose() -> (r: Level)
        ensures
            r == verbose_level(),
    {
        Level("VERBOSE", 2)
    }

    pub fn info() -> (r: Level)
        ensures
            r == info_level(),
    {
        Level("INFO", 3)
    }

    pub fn warn() -> (r: Level)
        ensures
            r == warn_level(),
    {
        Level("WARN", 4)
    }

    pub fn error() -> (r: Level)
        ensures
            r == error_level(),
    {
        Level("ERROR", 5)
    }

    pub fn fatal() -> (r: Level)
        ensures
            r == fatal_level(),
    {
        Level("FATAL", 6)
    }
}

/// Compares two names character by character.
pub fn same_name(a: &str, b: &str) -> (r: bool)
    ensures
        r == (a@ == b@),
{
    let n: usize = a.unicode_len();
    let m: usize = b.unicode_len();
    if n != m {
        return false;
    }
    let mut i: usize = 0;
    while i < n
        invariant
            n == a@.len(),
            m == b@.len(),
            n == m,
            i <= n,
            forall|j: int| 0 <= j < i ==> a@[j] == b@[j],
        decreases n - i,
    {
        if a.get_char(i) != b.get_char(i) {
            assert(a@[i as int] != b@[i as int]);
            return false;
        }
        i += 1;
    }
    assert(a@ =~= b@);
    true
}

} // verus!
