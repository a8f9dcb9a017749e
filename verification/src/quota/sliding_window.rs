use vstd::prelude::*;

use crate::arith::{saturating_sub_u64, wrapping_add_u64};
use crate::clock::Timestamp;
use crate::quota::{BurnWindow, Window, window_nanos};

verus! {

/// The state of a sliding-window counter, as plain values.
#[derive(Debug, Clone, Copy, PartialEq, Eq)]
pub struct SlidingState {
    /// Maximum units per window.
    pub capacity: u64,
    /// Window duration in nanoseconds.
    pub window_nanos: u64,
    /// Units counted in the current window.
    pub current_count: u64,
    /// Units counted in the previous window.
    pub previous_count: u64,
    /// Start of the current window in nanoseconds.
    pub window_start: u64,
}

/// The share of `count` that still weighs after `elapsed` nanoseconds of a window of
/// `window` nanoseconds: `count` scaled by the fraction of the window still ahead,
/// rounded down.
pub open spec fn interpolate(count: u64, elapsed: u64, window: u64) -> int {
    (count as int * (window - elapsed)) / window as int
}

impl SlidingState {
    /// The counter's invariant: the window is not empty and two windows fit in 64 bits.
    pub open spec fn wf(self) -> bool {
        &&& self.window_nanos > 0
        &&& 2 * self.window_nanos <= u64::MAX
    }

    /// Nanoseconds since the current window started (zero if it starts after `now`).
    pub open spec fn elapsed(self, now: u64) -> u64 {
        saturating_sub_u64(now, self.window_start)
    }

    /// The estimated usage at time `now`: nothing once two windows have passed;
    /// after one window, the current count weighed as the previous window; within
    /// the window, the weighed previous count plus the current count.
    pub open spec fn usage(self, now: u64) -> int {
        let e = self.elapsed(now);
        if e >= 2 * self.window_nanos {
            0
        } else if e >= self.window_nanos {
            interpolate(self.current_count, (e - self.window_nanos) as u64, self.window_nanos)
        } else {
            interpolate(self.previous_count, e, self.window_nanos) + self.current_count
        }
    }

    /// The state after rotating at time `now`: after two windows both counts are
    /// cleared and the window restarts at `now`; after one window the current count
    /// becomes the previous one and the window moves forward by one length.
    pub open spec fn rotated(self, now: u64) -> SlidingState {
        let e = self.elapsed(now);
        if e >= 2 * self.window_nanos {
            SlidingState { current_count: 0, previous_count: 0, window_start: now, ..self }
        } else if e >= self.window_nanos {
            SlidingState {
                current_count: 0,
                previous_count: self.current_count,
                window_start: (self.window_start + self.window_nanos) as u64,
                ..self
            }
        } else {
            self
        }
    }
}

/// Once two full windows have passed since the current one started, nothing counts
/// any more: the counter allows its whole capacity.
pub proof fn lemma_two_windows_clear(s: SlidingState, now: u64)
    requires
        s.wf(),
        now >= s.window_start + 2 * s.window_nanos,
    ensures
        s.usage(now) == 0,
        s.rotated(now).current_count == 0,
        s.rotated(now).previous_count == 0,
{
}

/// Within the first window after a rotation the previous count weighs less and
/// less: the estimated usage never exceeds the two counts together.
pub proof fn lemma_usage_within_counts(s: SlidingState, now: u64)
    requires
        s.wf(),
    ensures
        s.usage(now) <= s.previous_count + s.current_count,
{
    let e = s.elapsed(now);
    let w = s.window_nanos;
    if e >= 2 * w {
    } else if e >= w {
        let d = (e - w) as u64;
        let c = s.current_count;
        assert((c as int * (w - d)) / w as int <= c) by (nonlinear_arith)
            requires
                d < w,
                w > 0,
        ;
    } else {
        let p = s.previous_count;
        assert((p as int * (w - e)) / w as int <= p) by (nonlinear_arith)
            requires
                e < w,
                w > 0,
        ;
    }
}

/// Sliding window counter quota strategy.
///
/// Approximates a true sliding window by interpolating between the previous and current
/// fixed windows. More accurate than a pure fixed window for bursty traffic.
pub struct SlidingWindowCounter {
    capacity: u64,
    window_nanos: u64,
    current_count: u64,
    previous_count: u64,
    window_start: u64,
}

impl View for SlidingWindowCounter {
    type V = SlidingState;

    closed spec fn view(&self) -> SlidingState {
        SlidingState {
            capacity: self.capacity,
            window_nanos: self.window_nanos,
            current_count: self.current_count,
            previous_count: self.previous_count,
            window_start: self.window_start,
        }
    }
}

/// `count` scaled by `(window - elapsed) / window`, rounded down.
fn scale_down(count: u64, elapsed: u64, window: u64) -> (r: u64)
    requires
        elapsed <= window,
        window > 0,
    ensures
        r == interpolate(count, elapsed, window),
        r <= count,
{
    let ahead = window - elapsed;
    assert((count as int) * (ahead as int) <= (u64::MAX as int) * (u64::MAX as int))
        by (nonlinear_arith)
        requires
            count <= u64::MAX,
            ahead <= u64::MAX,
    ;
    let product: u128 = (count as u128) * (ahead as u128);
    let q = product / (window as u128);
    assert(q <= count) by (nonlinear_arith)
        requires
            q == product / (window as u128),
            product == count * ahead,
            ahead <= window,
            window > 0,
    ;
    q as u64
}

impl SlidingWindowCounter {
    /// An empty counter of `capacity` units per `window`, whose window starts at `now`.
    pub fn new(capacity: u64, window: Window, now: Timestamp) -> (r: Self)
        ensures
            r@ == (SlidingState {
                capacity,
                window_nanos: window_nanos(window),
                current_count: 0,
                previous_count: 0,
                window_start: now.0,
            }),
            r@.wf(),
    {
        SlidingWindowCounter {
            capacity,
            window_nanos: window.as_nanos(),
            current_count: 0,
            previous_count: 0,
            window_start: now.0,
        }
    }

    /// Rotates the windows if needed and returns the estimated usage at `now`.
    fn rotate_and_count(&mut self, now: Timestamp) -> (r: u64)
        requires
            old(self)@.wf(),
            old(self)@.usage(now.0) <= u64::MAX,
        ensures
            final(self)@ == old(self)@.rotated(now.0),
            final(self)@.wf(),
            r == old(self)@.usage(now.0),
    {
        let ws = self.window_start;
        let elapsed = now.0.saturating_sub(ws);
        if elapsed >= 2 * self.window_nanos {
            self.previous_count = 0;
            self.current_count = 0;
            self.window_start = now.0;
            return 0;
        }
        if elapsed >= self.window_nanos {
            let current = self.current_count;
            self.previous_count = current;
            self.current_count = 0;
            let new_start = ws + self.window_nanos;
            self.window_start = new_start;
            let new_elapsed = now.0.saturating_sub(new_start);
            return scale_down(current, new_elapsed, self.window_nanos);
        }
        let weighted_prev = scale_down(self.previous_count, elapsed, self.window_nanos);
        weighted_prev + self.current_count
    }

    /// Whether `amount` more units fit at `now`, against the estimated usage.
    pub fn check(&mut self, amount: u64, now: Timestamp) -> (r: bool)
        requires
            old(self)@.wf(),
            old(self)@.usage(now.0) + amount <= u64::MAX,
        ensures
            final(self)@ == old(self)@.rotated(now.0),
            final(self)@.wf(),
            r == (old(self)@.usage(now.0) + amount <= old(self)@.capacity),
    {
        let usage = self.rotate_and_count(now);
        usage + amount <= self.capacity
    }

    /// Records `amount` units in the current window at `now`.
    pub fn record(&mut self, amount: u64, now: Timestamp)
        requires
            old(self)@.wf(),
            old(self)@.usage(now.0) <= u64::MAX,
        ensures
            final(self)@ == (SlidingState {
                current_count: wrapping_add_u64(old(self)@.rotated(now.0).current_count, amount),
                ..old(self)@.rotated(now.0)
            }),
            final(self)@.wf(),
    {
        self.rotate_and_count(now);
        self.current_count = self.current_count.wrapping_add(amount);
    }

    /// Units still allowed at `now`: the capacity less the estimated usage, down to zero.
    pub fn remaining(&mut self, now: Timestamp) -> (r: u64)
        requires
            old(self)@.wf(),
            old(self)@.usage(now.0) <= u64::MAX,
        ensures
            final(self)@ == old(self)@.rotated(now.0),
            final(self)@.wf(),
            r == saturating_sub_u64(old(self)@.capacity, old(self)@.usage(now.0) as u64),
            r <= old(self)@.capacity,
    {
        let used = self.rotate_and_count(now);
        self.capacity.saturating_sub(used)
    }

    /// Total capacity (the limit).
    pub fn capacity(&self) -> (r: u64)
        ensures
            r == self@.capacity,
    {
        self.capacity
    }

    /// Units counted in the current window and the nanoseconds since it started
    /// (without rotating).
    pub fn burn_window(&self, now: Timestamp) -> (r: BurnWindow)
        ensures
            r.consumed == self@.current_count,
            r.elapsed_nanos == self@.elapsed(now.0),
    {
        BurnWindow {
            consumed: self.current_count,
            elapsed_nanos: now.0.saturating_sub(self.window_start),
        }
    }

    /// Clears both counts and starts a new window at `now`.
    pub fn reset(&mut self, now: Timestamp)
        ensures
            final(self)@ == (SlidingState {
                current_count: 0,
                previous_count: 0,
                window_start: now.0,
                ..old(self)@
            }),
    {
        self.current_count = 0;
        self.previous_count = 0;
        self.window_start = now.0;
    }
}

} // verus!
