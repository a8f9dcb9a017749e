use vstd::prelude::*;

use crate::arith::saturating_sub_u64;
use crate::clock::Timestamp;
use crate::quota::{
    BucketState, BurnWindow, ConcurrencyLimiter, ConcurrencyState, Dimension, FixedState,
    FixedWindow, PRECISION, QuotaConfig, SlidingState, SlidingWindowCounter, TokenBucket, Window,
    refill_amount, window_nanos,
};

verus! {

/// The state of any quota tracker, as plain values.
pub enum TrackerState {
    /// A token bucket.
    Bucket(BucketState),
    /// A fixed-window counter.
    Fixed(FixedState),
    /// A sliding-window counter.
    Sliding(SlidingState),
    /// A concurrency limiter.
    Concurrency(ConcurrencyState),
}

impl TrackerState {
    /// The invariant of the tracker's strategy.
    pub open spec fn wf(self) -> bool {
        match self {
            TrackerState::Bucket(b) => b.wf(),
            TrackerState::Fixed(f) => f.wf(),
            TrackerState::Sliding(s) => s.wf(),
            TrackerState::Concurrency(_) => true,
        }
    }

    /// Whether recording `amount` units at `now` stays within 64-bit arithmetic.
    pub open spec fn can_record(self, amount: u64, now: u64) -> bool {
        match self {
            TrackerState::Bucket(_) => amount * PRECISION <= u64::MAX,
            TrackerState::Sliding(s) => s.usage(now) <= u64::MAX,
            _ => true,
        }
    }

    /// Whether querying the tracker at `now` stays within 64-bit arithmetic.
    pub open spec fn can_query(self, now: u64) -> bool {
        match self {
            TrackerState::Sliding(s) => s.usage(now) <= u64::MAX,
            _ => true,
        }
    }

    /// The state after recording `amount` units at `now`.
    pub open spec fn recorded(self, amount: u64, now: u64) -> TrackerState {
        match self {
            TrackerState::Bucket(b) => TrackerState::Bucket(b.consumed(amount, now)),
            TrackerState::Fixed(f) => {
                let g = f.at_time(now);
                TrackerState::Fixed(
                    FixedState { count: crate::arith::wrapping_add_u64(g.count, amount), ..g },
                )
            },
            TrackerState::Sliding(s) => {
                let r = s.rotated(now);
                TrackerState::Sliding(
                    SlidingState {
                        current_count: crate::arith::wrapping_add_u64(r.current_count, amount),
                        ..r
                    },
                )
            },
            TrackerState::Concurrency(c) => TrackerState::Concurrency(
                ConcurrencyState { active: crate::arith::wrapping_add_u64(c.active, amount), ..c },
            ),
        }
    }

    /// The state after the tracker brings itself up to date at `now` (refill,
    /// window reset or rotation) to answer a query.
    pub open spec fn queried(self, now: u64) -> TrackerState {
        match self {
            TrackerState::Bucket(b) => TrackerState::Bucket(b.refilled(now)),
            TrackerState::Fixed(f) => TrackerState::Fixed(f.at_time(now)),
            TrackerState::Sliding(s) => TrackerState::Sliding(s.rotated(now)),
            TrackerState::Concurrency(c) => TrackerState::Concurrency(c),
        }
    }

    /// The remaining capacity at `now`.
    pub open spec fn remaining(self, now: u64) -> u64 {
        match self {
            TrackerState::Bucket(b) => b.refilled(now).whole_tokens(),
            TrackerState::Fixed(f) => f.at_time(now).left(),
            TrackerState::Sliding(s) => saturating_sub_u64(s.capacity, s.usage(now) as u64),
            TrackerState::Concurrency(c) => saturating_sub_u64(c.capacity, c.active),
        }
    }

    /// The capacity (limit).
    pub open spec fn capacity(self) -> u64 {
        match self {
            TrackerState::Bucket(b) => b.capacity,
            TrackerState::Fixed(f) => f.capacity,
            TrackerState::Sliding(s) => s.capacity,
            TrackerState::Concurrency(c) => c.capacity,
        }
    }

    /// The burn-rate window of an up-to-date tracker at `now`.
    pub open spec fn burn(self, now: u64) -> BurnWindow {
        match self {
            TrackerState::Bucket(b) => BurnWindow {
                consumed: b.consumed_in_window,
                elapsed_nanos: saturating_sub_u64(now, b.window_start),
            },
            TrackerState::Fixed(f) => BurnWindow {
                consumed: f.count,
                elapsed_nanos: saturating_sub_u64(now, f.window_start),
            },
            TrackerState::Sliding(s) => BurnWindow {
                consumed: s.current_count,
                elapsed_nanos: s.elapsed(now),
            },
            TrackerState::Concurrency(_) => BurnWindow { consumed: 0, elapsed_nanos: 0 },
        }
    }
}

/// What a tracker reports at one instant: its capacity, its remaining capacity, and its
/// burn-rate window.
#[derive(Debug, Clone, Copy, PartialEq, Eq, Structural)]
pub struct QuotaSample {
    /// Total capacity (limit).
    pub capacity: u64,
    /// Remaining capacity.
    pub remaining: u64,
    /// Consumption in the burn-rate window.
    pub burn: BurnWindow,
}

/// A quota tracker of any strategy.
pub enum QuotaTracker {
    /// A token bucket.
    Bucket(TokenBucket),
    /// A fixed-window counter.
    Fixed(FixedWindow),
    /// A sliding-window counter.
    Sliding(SlidingWindowCounter),
    /// A concurrency limiter.
    Concurrency(ConcurrencyLimiter),
}

impl View for QuotaTracker {
    type V = TrackerState;

    open spec fn view(&self) -> TrackerState {
        match self {
            QuotaTracker::Bucket(b) => TrackerState::Bucket(b@),
            QuotaTracker::Fixed(f) => TrackerState::Fixed(f@),
            QuotaTracker::Sliding(s) => TrackerState::Sliding(s@),
            QuotaTracker::Concurrency(c) => TrackerState::Concurrency(c@),
        }
    }
}

/// The state of the tracker created for a quota at `now`: a concurrency limiter for
/// the concurrency dimension, otherwise a full token bucket over the quota's window
/// (a minute when none is given).
pub open spec fn initial_tracker(config: QuotaConfig, now: u64) -> TrackerState {
    match config.dimension {
        Dimension::Concurrency => TrackerState::Concurrency(
            ConcurrencyState { capacity: config.limit, active: 0 },
        ),
        _ => {
            let window = match config.window {
                Some(w) => w,
                None => Window::Minute,
            };
            TrackerState::Bucket(
                BucketState {
                    capacity: config.limit,
                    window_nanos: window_nanos(window),
                    tokens: (config.limit * PRECISION) as u64,
                    last_refill: now,
                    consumed_in_window: 0,
                    window_start: now,
                },
            )
        },
    }
}

/// Whether a tracker can be created for a quota: a token bucket's full content must
/// fit in 64 bits.
pub open spec fn quota_fits(config: QuotaConfig) -> bool {
    config.dimension != Dimension::Concurrency ==> config.limit * PRECISION <= u64::MAX
}

/// A tracker that was just created allows the quota's whole limit.
pub proof fn lemma_fresh_tracker_full(config: QuotaConfig, now: u64)
    requires
        quota_fits(config),
    ensures
        initial_tracker(config, now).remaining(now) == config.limit,
        initial_tracker(config, now).capacity() == config.limit,
{
    if config.dimension != Dimension::Concurrency {
        let t = initial_tracker(config, now);
        if let TrackerState::Bucket(b) = t {
            assert(b.refilled(now) == b);
            assert((config.limit as int * PRECISION as int) / PRECISION as int == config.limit)
                by (nonlinear_arith)
                requires
                    PRECISION > 0,
            ;
        }
    }
}

/// A quota's tracker refills over the quota's own window. Emptied at `now`, it has no
/// whole unit back while `d` nanoseconds, times the limit, stay under the window (less
/// than one unit's share of the window has passed), and it is full again once the
/// whole window has passed.
pub proof fn lemma_tracker_refills_over_its_window(config: QuotaConfig, w: Window, now: u64, d: u64)
    requires
        config.dimension != Dimension::Concurrency,
        config.window == Some(w),
        quota_fits(config),
        now + d <= u64::MAX,
    ensures
        ({
            let emptied = initial_tracker(config, now).recorded(config.limit, now);
            &&& d * config.limit < window_nanos(w) ==> emptied.remaining((now + d) as u64) == 0
            &&& (d >= window_nanos(w) && d * config.limit * PRECISION / (window_nanos(w) as int)
                <= u64::MAX) ==> emptied.remaining((now + d) as u64) == config.limit
        }),
{
    let wn = window_nanos(w);
    let l = config.limit as int;
    let p = PRECISION as int;
    let m = l * p;
    assert(wn > 0);
    let t = initial_tracker(config, now);
    let b = match t {
        TrackerState::Bucket(b) => b,
        _ => {
            assert(false);
            arbitrary()
        },
    };
    assert(b.window_nanos == wn);
    assert(b.max_tokens() == m);
    assert(b.refilled(now) == b);
    let e = b.consumed(config.limit, now);
    assert(e.tokens == 0);
    assert(e.last_refill == now);
    let later = (now + d) as u64;
    let added = refill_amount(d, m as u64, wn);
    assert(saturating_sub_u64(later, e.last_refill) == d);
    if d * config.limit < wn {
        assert((d as int * m) / (wn as int) < p) by (nonlinear_arith)
            requires
                d * l < wn,
                m == l * p,
                p > 0,
                wn > 0,
                d >= 0,
                l >= 0,
        ;
        let r = e.refilled(later);
        assert(r.tokens < p);
        assert(r.tokens as int / p == 0) by (nonlinear_arith)
            requires
                0 <= r.tokens < p,
                p > 0,
        ;
    }
    if d >= wn && d * config.limit * PRECISION / (wn as int) <= u64::MAX {
        assert((d as int * m) / (wn as int) >= m) by (nonlinear_arith)
            requires
                d >= wn,
                wn > 0,
                m >= 0,
        ;
        assert(d as int * m == d * config.limit * PRECISION) by (nonlinear_arith)
            requires
                m == l * p,
                l == config.limit,
                p == PRECISION,
        ;
        let r = e.refilled(later);
        if m > 0 {
            assert(added >= m);
            assert(r.tokens == m);
        } else {
            assert(l == 0) by (nonlinear_arith)
                requires
                    m == l * p,
                    m <= 0,
                    p > 0,
                    l >= 0,
            ;
        }
        assert(m / p == l) by (nonlinear_arith)
            requires
                m == l * p,
                p > 0,
        ;
    }
}

/// Recording an amount that a tracker still allows lowers its remaining capacity by
/// exactly that amount, seen at the same instant.
pub proof fn lemma_record_lowers_remaining(t: TrackerState, amount: u64, now: u64)
    requires
        t.wf(),
        t.can_record(amount, now),
        t.can_query(now),
        amount <= t.remaining(now),
    ensures
        t.recorded(amount, now).remaining(now) == t.remaining(now) - amount,
{
    match t {
        TrackerState::Bucket(b) => {
            let r = b.refilled(now);
            assert(amount * PRECISION <= r.tokens) by (nonlinear_arith)
                requires
                    amount <= r.tokens / PRECISION,
                    PRECISION > 0,
            ;
            crate::quota::token_bucket::lemma_consume_lowers_remaining(b, amount, now);
        },
        TrackerState::Fixed(f) => {
            crate::quota::fixed_window::lemma_at_time_idempotent(f, now);
            let g = f.at_time(now);
            let h = FixedState { count: crate::arith::wrapping_add_u64(g.count, amount), ..g };
            assert(h.at_time(now) == h);
        },
        TrackerState::Sliding(s) => {
            let r = s.rotated(now);
            assert(r.usage(now) == s.usage(now));
        },
        TrackerState::Concurrency(_) => {},
    }
}

/// Creates the tracker for a quota at `now`.
pub fn create_tracker(config: &QuotaConfig, now: Timestamp) -> (r: QuotaTracker)
    requires
        quota_fits(*config),
    ensures
        r@ == initial_tracker(*config, now.0),
        r@.wf(),
{
    match config.dimension {
        Dimension::Concurrency => QuotaTracker::Concurrency(ConcurrencyLimiter::new(config.limit)),
        _ => match config.window {
            Some(window) => QuotaTracker::Bucket(TokenBucket::new(config.limit, window, now)),
            None => QuotaTracker::Bucket(TokenBucket::new(config.limit, Window::Minute, now)),
        },
    }
}

impl QuotaTracker {
    /// Records consumption of `amount` units at `now`.
    pub fn record(&mut self, amount: u64, now: Timestamp)
        requires
            old(self)@.wf(),
            old(self)@.can_record(amount, now.0),
        ensures
            final(self)@ == old(self)@.recorded(amount, now.0),
            final(self)@.wf(),
    {
        match self {
            QuotaTracker::Bucket(b) => b.record(amount, now),
            QuotaTracker::Fixed(f) => f.record(amount, now),
            QuotaTracker::Sliding(s) => s.record(amount, now),
            QuotaTracker::Concurrency(c) => c.record(amount, now),
        }
    }

    /// Remaining capacity at `now`; never more than the capacity.
    pub fn remaining(&mut self, now: Timestamp) -> (r: u64)
        requires
            old(self)@.wf(),
            old(self)@.can_query(now.0),
        ensures
            final(self)@ == old(self)@.queried(now.0),
            final(self)@.wf(),
            r == old(self)@.remaining(now.0),
            r <= old(self)@.capacity(),
    {
        match self {
            QuotaTracker::Bucket(b) => b.remaining(now),
            QuotaTracker::Fixed(f) => f.remaining(now),
            QuotaTracker::Sliding(s) => s.remaining(now),
            QuotaTracker::Concurrency(c) => c.remaining(now),
        }
    }

    /// Total capacity (limit).
    pub fn capacity(&self) -> (r: u64)
        ensures
            r == self@.capacity(),
    {
        match self {
            QuotaTracker::Bucket(b) => b.capacity(),
            QuotaTracker::Fixed(f) => f.capacity(),
            QuotaTracker::Sliding(s) => s.capacity(),
            QuotaTracker::Concurrency(c) => c.capacity(),
        }
    }

    /// Capacity, remaining capacity and burn-rate window at `now`, taken in that order.
    pub fn sample(&mut self, now: Timestamp) -> (r: QuotaSample)
        requires
            old(self)@.wf(),
            old(self)@.can_query(now.0),
        ensures
            final(self)@ == old(self)@.queried(now.0),
            final(self)@.wf(),
            r.capacity == old(self)@.capacity(),
            r.remaining == old(self)@.remaining(now.0),
            r.burn == final(self)@.burn(now.0),
    {
        let capacity = self.capacity();
        let remaining = self.remaining(now);
        proof {
            if let TrackerState::Fixed(f) = old(self)@ {
                crate::quota::fixed_window::lemma_at_time_idempotent(f, now.0);
            }
        }
        let burn = match self {
            QuotaTracker::Bucket(b) => b.burn_window(now),
            QuotaTracker::Fixed(f) => f.burn_window(now),
            QuotaTracker::Sliding(s) => s.burn_window(now),
            QuotaTracker::Concurrency(c) => c.burn_window(now),
        };
        QuotaSample { capacity, remaining, burn }
    }
}

} // verus!
