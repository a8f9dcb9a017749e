use vstd::prelude::*;

use crate::arith::{saturating_sub_u64, wrapping_add_u64};
use crate::clock::Timestamp;
use crate::quota::{BurnWindow, Window, window_nanos};

verus! {

/// The state of a fixed-window counter, as plain values.
#[derive(Debug, Clone, Copy, PartialEq, Eq)]
pub struct FixedState {
    /// Maximum units per window.
    pub capacity: u64,
    /// Window duration in nanoseconds.
    pub window_nanos: u64,
    /// Units counted in the current window.
    pub count: u64,
    /// Start of the current window in nanoseconds.
    pub window_start: u64,
}

impl FixedState {
    /// The counter's invariant: the window is not empty.
    pub open spec fn wf(self) -> bool {
        self.window_nanos > 0
    }

    /// The state at time `now`: once the current window has expired, the count
    /// restarts at zero and the window start moves forward by the whole number of
    /// windows that have passed, staying aligned to window boundaries.
    pub open spec fn at_time(self, now: u64) -> FixedState {
        let elapsed = saturating_sub_u64(now, self.window_start);
        if elapsed >= self.window_nanos {
            FixedState {
                count: 0,
                window_start: (self.window_start + (elapsed / self.window_nanos)
                    * self.window_nanos) as u64,
                ..self
            }
        } else {
            self
        }
    }

    /// Units still allowed in the current window.
    pub open spec fn left(self) -> u64 {
        saturating_sub_u64(self.capacity, self.count)
    }
}

/// Bringing a counter up to date twice at the same instant changes nothing the
/// second time: after a reset the window start lies less than one window before `now`.
pub proof fn lemma_at_time_idempotent(f: FixedState, now: u64)
    requires
        f.wf(),
    ensures
        f.at_time(now).at_time(now) == f.at_time(now),
        saturating_sub_u64(now, f.at_time(now).window_start) < f.window_nanos,
{
    let elapsed = saturating_sub_u64(now, f.window_start);
    if elapsed >= f.window_nanos {
        let q = elapsed / f.window_nanos;
        vstd::arithmetic::div_mod::lemma_fundamental_div_mod(elapsed as int, f.window_nanos as int);
        assert(elapsed - q * f.window_nanos < f.window_nanos);
    }
}

/// Once a full window has passed since the current one started, the counter allows
/// its whole capacity again.
pub proof fn lemma_window_expiry_restores(f: FixedState, now: u64)
    requires
        f.wf(),
        now >= f.window_start + f.window_nanos,
    ensures
        f.at_time(now).left() == f.capacity,
{
}

/// Fixed window quota strategy.
///
/// Simple counter that resets at fixed intervals. Least complex strategy but susceptible
/// to boundary burst issues (double the rate at window edges).
pub struct FixedWindow {
    capacity: u64,
    window_nanos: u64,
    count: u64,
    window_start: u64,
}

impl View for FixedWindow {
    type V = FixedState;

    closed spec fn view(&self) -> FixedState {
        FixedState {
            capacity: self.capacity,
            window_nanos: self.window_nanos,
            count: self.count,
            window_start: self.window_start,
        }
    }
}

impl FixedWindow {
    /// An empty counter of `capacity` units per `window`, whose first window starts at `now`.
    pub fn new(capacity: u64, window: Window, now: Timestamp) -> (r: Self)
        ensures
            r@ == (FixedState {
                capacity,
                window_nanos: window_nanos(window),
                count: 0,
                window_start: now.0,
            }),
            r@.wf(),
    {
        FixedWindow { capacity, window_nanos: window.as_nanos(), count: 0, window_start: now.0 }
    }

    /// Starts a new window if the current one has expired.
    fn maybe_reset(&mut self, now: Timestamp)
        requires
            old(self)@.wf(),
        ensures
            final(self)@ == old(self)@.at_time(now.0),
            final(self)@.wf(),
    {
        let ws = self.window_start;
        let elapsed = now.0.saturating_sub(ws);
        if elapsed >= self.window_nanos {
            self.count = 0;
            let windows_elapsed = elapsed / self.window_nanos;
            assert(windows_elapsed * self.window_nanos <= elapsed) by (nonlinear_arith)
                requires
                    windows_elapsed == elapsed / self.window_nanos,
                    self.window_nanos > 0,
            ;
            self.window_start = ws + windows_elapsed * self.window_nanos;
        }
    }

    /// Whether `amount` more units fit in the current window at `now`.
    pub fn check(&mut self, amount: u64, now: Timestamp) -> (r: bool)
        requires
            old(self)@.wf(),
            old(self)@.at_time(now.0).count + amount <= u64::MAX,
        ensures
            final(self)@ == old(self)@.at_time(now.0),
            final(self)@.wf(),
            r == (final(self)@.count + amount <= final(self)@.capacity),
    {
        self.maybe_reset(now);
        self.count + amount <= self.capacity
    }

    /// Records `amount` units in the current window at `now`.
    pub fn record(&mut self, amount: u64, now: Timestamp)
        requires
            old(self)@.wf(),
        ensures
            final(self)@ == (FixedState {
                count: wrapping_add_u64(old(self)@.at_time(now.0).count, amount),
                ..old(self)@.at_time(now.0)
            }),
            final(self)@.wf(),
    {
        self.maybe_reset(now);
        self.count = self.count.wrapping_add(amount);
    }

    /// Units still allowed in the current window at `now`; never more than the capacity.
    pub fn remaining(&mut self, now: Timestamp) -> (r: u64)
        requires
            old(self)@.wf(),
        ensures
            final(self)@ == old(self)@.at_time(now.0),
            final(self)@.wf(),
            r == final(self)@.left(),
            r <= final(self)@.capacity,
    {
        self.maybe_reset(now);
        self.capacity.saturating_sub(self.count)
    }

    /// Total capacity (the limit).
    pub fn capacity(&self) -> (r: u64)
        ensures
            r == self@.capacity,
    {
        self.capacity
    }

    /// Units counted in the current window at `now` and the nanoseconds since it started.
    pub fn burn_window(&mut self, now: Timestamp) -> (r: BurnWindow)
        requires
            old(self)@.wf(),
        ensures
            final(self)@ == old(self)@.at_time(now.0),
            final(self)@.wf(),
            r.consumed == final(self)@.count,
            r.elapsed_nanos == saturating_sub_u64(now.0, final(self)@.window_start),
    {
        self.maybe_reset(now);
        BurnWindow { consumed: self.count, elapsed_nanos: now.0.saturating_sub(self.window_start) }
    }

    /// Empties the counter and starts a new window at `now`.
    pub fn reset(&mut self, now: Timestamp)
        ensures
            final(self)@ == (FixedState { count: 0, window_start: now.0, ..old(self)@ }),
    {
        self.count = 0;
        self.window_start = now.0;
    }
}

} // verus!
