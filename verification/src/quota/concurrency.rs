use vstd::prelude::*;

use crate::arith::{saturating_sub_u64, wrapping_add_u64};
use crate::clock::Timestamp;
use crate::quota::BurnWindow;

verus! {

/// The state of a concurrency limiter, as plain values.
#[derive(Debug, Clone, Copy, PartialEq, Eq)]
pub struct ConcurrencyState {
    /// Maximum units in flight.
    pub capacity: u64,
    /// Units in flight.
    pub active: u64,
}

/// Releasing the slots that were just occupied undoes the occupation, when the
/// count does not wrap.
pub proof fn lemma_record_then_release(c: ConcurrencyState, amount: u64)
    requires
        c.active + amount <= u64::MAX,
    ensures
        ({
            let occupied = ConcurrencyState { active: wrapping_add_u64(c.active, amount), ..c };
            ConcurrencyState { active: saturating_sub_u64(occupied.active, amount), ..occupied }
        }) == c,
{
}

/// Concurrency limiter: tracks in-flight requests rather than rate.
///
/// Unlike rate-based quotas, concurrency limits don't have a time window.
/// The count is incremented on acquire and decremented on release.
pub struct ConcurrencyLimiter {
    capacity: u64,
    active: u64,
}

impl View for ConcurrencyLimiter {
    type V = ConcurrencyState;

    closed spec fn view(&self) -> ConcurrencyState {
        ConcurrencyState { capacity: self.capacity, active: self.active }
    }
}

impl ConcurrencyLimiter {
    /// A limiter of `capacity` slots, none in use.
    pub fn new(capacity: u64) -> (r: Self)
        ensures
            r@ == (ConcurrencyState { capacity, active: 0 }),
    {
        ConcurrencyLimiter { capacity, active: 0 }
    }

    /// Releases `amount` slots (down to none in use). Called when a request completes.
    pub fn release(&mut self, amount: u64)
        ensures
            final(self)@ == (ConcurrencyState {
                active: saturating_sub_u64(old(self)@.active, amount),
                ..old(self)@
            }),
    {
        self.active = self.active.saturating_sub(amount);
    }

    /// Whether `amount` more slots fit; time plays no part.
    pub fn check(&self, amount: u64, _now: Timestamp) -> (r: bool)
        requires
            self@.active + amount <= u64::MAX,
        ensures
            r == (self@.active + amount <= self@.capacity),
    {
        self.active + amount <= self.capacity
    }

    /// Occupies `amount` slots.
    pub fn record(&mut self, amount: u64, _now: Timestamp)
        ensures
            final(self)@ == (ConcurrencyState {
                active: wrapping_add_u64(old(self)@.active, amount),
                ..old(self)@
            }),
    {
        self.active = self.active.wrapping_add(amount);
    }

    /// Free slots; time plays no part, and never more than the capacity.
    pub fn remaining(&self, _now: Timestamp) -> (r: u64)
        ensures
            r == saturating_sub_u64(self@.capacity, self@.active),
            r <= self@.capacity,
    {
        self.capacity.saturating_sub(self.active)
    }

    /// Total capacity (the limit).
    pub fn capacity(&self) -> (r: u64)
        ensures
            r == self@.capacity,
    {
        self.capacity
    }

    /// A concurrency limit has no burn rate: nothing consumed, no time elapsed.
    pub fn burn_window(&self, _now: Timestamp) -> (r: BurnWindow)
        ensures
            r == (BurnWindow { consumed: 0, elapsed_nanos: 0 }),
    {
        BurnWindow { consumed: 0, elapsed_nanos: 0 }
    }

    /// Frees every slot.
    pub fn reset(&mut self, _now: Timestamp)
        ensures
            final(self)@ == (ConcurrencyState { active: 0, ..old(self)@ }),
    {
        self.active = 0;
    }
}

} // verus!
