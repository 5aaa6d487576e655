//! The counter store: a single non-negative unread-count value with
//! get / set / increment / clear operations.
//!
//! The store itself is sequential; the hosting process shares one instance
//! behind a mutual-exclusion lock and calls each operation inside one
//! critical section, so the contracts below describe exactly what one atomic
//! operation does to the stored value.

use vstd::prelude::*;

verus! {

/// Result of stepping the counter by one increment: the value saturates at
/// the integer's maximum instead of wrapping.
pub open spec fn spec_increment(c: u32) -> u32 {
    if c < u32::MAX {
        (c + 1) as u32
    } else {
        u32::MAX
    }
}

/// Result of clearing the counter: always zero.
pub open spec fn spec_clear(c: u32) -> u32 {
    0u32
}

/// The unread-count store.
pub struct UnreadCount {
    count: u32,
}

impl UnreadCount {
    /// The stored value, for use in contracts.
    pub closed spec fn spec_count(&self) -> u32 {
        self.count
    }

    /// Creates a store holding zero.
    pub fn new() -> (r: UnreadCount)
        ensures
            r.spec_count() == 0,
    {
        UnreadCount { count: 0 }
    }

    /// Reads the current value.
    pub fn get(&self) -> (r: u32)
        ensures
            r == self.spec_count(),
    {
        self.count
    }

    /// Unconditionally replaces the value and returns the new one.
    pub fn set(&mut self, value: u32) -> (r: u32)
        ensures
            final(self).spec_count() == value,
            r == value,
    {
        self.count = value;
        self.count
    }

    /// Adds one to the value, saturating at the maximum, and returns the new
    /// value.
    pub fn increment(&mut self) -> (r: u32)
        ensures
            final(self).spec_count() == spec_increment(old(self).spec_count()),
            r == final(self).spec_count(),
    {
        self.count = self.count.saturating_add(1);
        self.count
    }

    /// Resets the value to zero and returns zero.
    pub fn clear(&mut self) -> (r: u32)
        ensures
            final(self).spec_count() == 0,
            r == 0,
    {
        self.set(0)
    }
}

/// The counter value after a run of `n` increments starting from `c`, with
/// each increment applied atomically in some order.
pub open spec fn spec_increments(c: u32, n: nat) -> u32
    decreases n,
{
    if n == 0 {
        c
    } else {
        spec_increment(spec_increments(c, (n - 1) as nat))
    }
}

/// No update is ever lost: a run of `n` increment operations, each performed
/// as one atomic read-modify-write, takes the counter from zero to exactly
/// `n` whenever `n` stays within the integer's range.
pub proof fn lemma_no_lost_updates(n: nat)
    requires
        n <= u32::MAX,
    ensures
        spec_increments(0, n) == n,
    decreases n,
{
    if n > 0 {
        lemma_no_lost_updates((n - 1) as nat);
    }
}

/// Clearing is idempotent: a second clear finds zero and returns zero again,
/// so two consecutive clears yield `0, 0`.
pub proof fn lemma_clear_idempotent(c: u32)
    ensures
        spec_clear(c) == 0,
        spec_clear(spec_clear(c)) == 0,
{
}

} // verus!
