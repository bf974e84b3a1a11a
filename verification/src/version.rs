//! The version allocator: one counter for all tables, the only source of new
//! version numbers. It never goes back.

use vstd::prelude::*;

verus! {

/// The larger of two versions.
pub open spec fn later(a: i64, b: i64) -> i64 {
    if a >= b {
        a
    } else {
        b
    }
}

/// The counter from which every new version is taken.
#[derive(Debug)]
pub struct VersionCounter {
    value: i64,
}

impl VersionCounter {
    /// The last version that was allocated or observed.
    pub closed spec fn value(&self) -> i64 {
        self.value
    }

    /// A counter that starts at the highest version found in the store.
    pub fn new(initial: i64) -> (r: VersionCounter)
        ensures
            r.value() == initial,
    {
        VersionCounter { value: initial }
    }

    /// The counter's value.
    pub fn current_version(&self) -> (r: i64)
        ensures
            r == self.value(),
    {
        self.value
    }

    /// Whether a further version can be allocated.
    pub fn has_next(&self) -> (r: bool)
        ensures
            r == (self.value() < i64::MAX),
    {
        self.value < i64::MAX
    }

    /// Takes the next version: one more than the last.
    pub fn allocate(&mut self) -> (r: i64)
        requires
            old(self).value() < i64::MAX,
        ensures
            r == old(self).value() + 1,
            final(self).value() == r,
    {
        self.value = self.value + 1;
        self.value
    }

    /// Raises the counter to a version that was seen in the store, if that
    /// one is higher.
    pub fn advance_to(&mut self, observed: i64)
        ensures
            final(self).value() == later(old(self).value(), observed),
    {
        if observed > self.value {
            self.value = observed;
        }
    }
}

} // verus!
