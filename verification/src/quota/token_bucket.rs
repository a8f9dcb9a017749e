use vstd::prelude::*;

use crate::arith::{min_u64, saturating_add_u64, saturating_sub_u64, wrapping_add_u64};
use crate::clock::Timestamp;
use crate::quota::{BurnWindow, Window, window_nanos};

verus! {

/// Fixed-point precision for fractional tokens: one token is this many units.
pub const PRECISION: u64 = 1_000_000;

/// The state of a token bucket, as plain values.
#[derive(Debug, Clone, Copy, PartialEq, Eq)]
pub struct BucketState {
    /// Maximum tokens (the limit).
    pub capacity: u64,
    /// Window duration in nanoseconds.
    pub window_nanos: u64,
    /// Tokens remaining, in fixed point (tokens times `PRECISION`).
    pub tokens: u64,
    /// Last refill timestamp in nanoseconds.
    pub last_refill: u64,
    /// Units consumed since the burn-rate window started.
    pub consumed_in_window: u64,
    /// Start of the burn-rate window in nanoseconds.
    pub window_start: u64,
}

/// Fixed-point units that `elapsed` nanoseconds refill into a bucket whose full
/// content is `max_tokens` units over a window of `window` nanoseconds: the
/// quotient `elapsed * max_tokens / window`, truncated to 64 bits.
pub open spec fn refill_amount(elapsed: u64, max_tokens: u64, window: u64) -> u64 {
    ((elapsed as int * max_tokens as int) / window as int) as u64
}

impl BucketState {
    /// The full content of the bucket in fixed-point units.
    pub open spec fn max_tokens(self) -> int {
        self.capacity as int * PRECISION as int
    }

    /// The bucket's invariant: the full content fits in 64 bits, the window is not
    /// empty, and the bucket never holds more than its full content.
    pub open spec fn wf(self) -> bool {
        &&& self.max_tokens() <= u64::MAX
        &&& self.window_nanos > 0
        &&& self.tokens <= self.max_tokens()
    }

    /// The state after refilling at time `now`: tokens accrue in proportion to the
    /// time since the last refill, capped at the full content; nothing changes when
    /// no whole fixed-point unit accrued; the burn-rate window restarts once a full
    /// window has passed since it started.
    pub open spec fn refilled(self, now: u64) -> BucketState {
        let elapsed = saturating_sub_u64(now, self.last_refill);
        let added = refill_amount(elapsed, self.max_tokens() as u64, self.window_nanos);
        if elapsed == 0 || added == 0 {
            self
        } else {
            let window_over = saturating_sub_u64(now, self.window_start) >= self.window_nanos;
            BucketState {
                tokens: min_u64(saturating_add_u64(self.tokens, added), self.max_tokens() as u64),
                last_refill: now,
                consumed_in_window: if window_over { 0 } else { self.consumed_in_window },
                window_start: if window_over { now } else { self.window_start },
                ..self
            }
        }
    }

    /// Whole tokens available.
    pub open spec fn whole_tokens(self) -> u64 {
        self.tokens / PRECISION
    }

    /// The state after consuming `amount` tokens at time `now`: a refill, then the
    /// cost is taken from the tokens (down to zero at most) and added to the
    /// burn-rate count.
    pub open spec fn consumed(self, amount: u64, now: u64) -> BucketState {
        let r = self.refilled(now);
        BucketState {
            tokens: saturating_sub_u64(r.tokens, (amount * PRECISION) as u64),
            consumed_in_window: wrapping_add_u64(r.consumed_in_window, amount),
            ..r
        }
    }

    /// A full bucket whose refill and burn-rate windows start at `now`.
    pub open spec fn reset_at(self, now: u64) -> BucketState {
        BucketState {
            tokens: self.max_tokens() as u64,
            last_refill: now,
            consumed_in_window: 0,
            window_start: now,
            ..self
        }
    }
}

/// Consuming tokens that are available lowers the whole tokens by exactly that
/// amount, seen at the same instant.
pub proof fn lemma_consume_lowers_remaining(b: BucketState, amount: u64, now: u64)
    requires
        b.wf(),
        amount * PRECISION <= b.refilled(now).tokens,
    ensures
        b.consumed(amount, now).refilled(now).whole_tokens() == b.refilled(now).whole_tokens()
            - amount,
{
    let r = b.refilled(now);
    let c = b.consumed(amount, now);
    assert(r.last_refill == now || r == b);
    if r == b {
        assert(saturating_sub_u64(now, b.last_refill) == 0 || refill_amount(
            saturating_sub_u64(now, b.last_refill),
            b.max_tokens() as u64,
            b.window_nanos,
        ) == 0);
    }
    assert(c.refilled(now) == c);
    let t = r.tokens as int;
    let a = amount as int;
    assert((t - a * PRECISION) / PRECISION as int == t / PRECISION as int - a) by (nonlinear_arith)
        requires
            a * PRECISION <= t,
            PRECISION > 0,
    ;
}

/// Recording takes what it asks for, or all that is left: seen at the same instant,
/// the whole tokens after consuming `amount` are those before less `amount`, and none
/// when `amount` is more than was left.
pub proof fn lemma_record_takes_what_is_left(b: BucketState, amount: u64, now: u64)
    requires
        b.wf(),
        amount * PRECISION <= u64::MAX,
    ensures
        b.consumed(amount, now).refilled(now).whole_tokens() == saturating_sub_u64(
            b.refilled(now).whole_tokens(),
            amount,
        ),
        amount > b.refilled(now).whole_tokens() ==> b.consumed(amount, now).refilled(now).whole_tokens()
            == 0,
{
    let r = b.refilled(now);
    let c = b.consumed(amount, now);
    assert(r.last_refill == now || r == b);
    assert(c.refilled(now) == c);
    let t = r.tokens as int;
    let a = amount as int;
    let p = PRECISION as int;
    if a * p <= t {
        assert((t - a * p) / p == t / p - a) by (nonlinear_arith)
            requires
                a * p <= t,
                p > 0,
        ;
        assert(a <= t / p) by (nonlinear_arith)
            requires
                a * p <= t,
                p > 0,
        ;
    } else {
        assert(c.tokens == 0);
        assert(a > t / p) by (nonlinear_arith)
            requires
                a * p > t,
                p > 0,
                t >= 0,
        ;
    }
}

/// A bucket that is reset is full: its whole tokens are its capacity.
pub proof fn lemma_reset_is_full(b: BucketState, now: u64)
    requires
        b.wf(),
    ensures
        b.reset_at(now).refilled(now).whole_tokens() == b.capacity,
{
    let r = b.reset_at(now);
    assert(r.refilled(now) == r);
    assert((b.capacity as int * PRECISION as int) / PRECISION as int == b.capacity) by (nonlinear_arith)
        requires
            PRECISION > 0,
    ;
}

/// After a full window without refill, a bucket is full again, provided the
/// fixed-point units that accrued fit in 64 bits.
pub proof fn lemma_full_after_window(b: BucketState, now: u64)
    requires
        b.wf(),
        now >= b.last_refill + b.window_nanos,
        (((now - b.last_refill) as int) * b.max_tokens()) / (b.window_nanos as int) <= u64::MAX,
    ensures
        b.refilled(now).whole_tokens() == b.capacity,
{
    let elapsed = (now - b.last_refill) as u64;
    let m = b.max_tokens();
    let q = (elapsed as int * m) / b.window_nanos as int;
    assert(q >= m) by (nonlinear_arith)
        requires
            elapsed >= b.window_nanos,
            b.window_nanos > 0,
            m >= 0,
            q == (elapsed as int * m) / b.window_nanos as int,
    ;
    assert(refill_amount(elapsed, m as u64, b.window_nanos) == q);
    if q > 0 {
        assert(b.refilled(now).tokens == m);
    } else {
        assert(m == 0);
    }
    assert((b.capacity as int * PRECISION as int) / PRECISION as int == b.capacity) by (nonlinear_arith)
        requires
            PRECISION > 0,
    ;
}

/// Token bucket quota strategy.
///
/// Tokens refill continuously over the window period. This provides smooth rate limiting
/// that naturally handles bursts while enforcing the average rate.
pub struct TokenBucket {
    capacity: u64,
    window_nanos: u64,
    tokens: u64,
    last_refill: u64,
    consumed_in_window: u64,
    window_start: u64,
}

impl View for TokenBucket {
    type V = BucketState;

    closed spec fn view(&self) -> BucketState {
        BucketState {
            capacity: self.capacity,
            window_nanos: self.window_nanos,
            tokens: self.tokens,
            last_refill: self.last_refill,
            consumed_in_window: self.consumed_in_window,
            window_start: self.window_start,
        }
    }
}

impl TokenBucket {
    /// A full bucket of `capacity` tokens that refills over `window`, starting at `now`.
    pub fn new(capacity: u64, window: Window, now: Timestamp) -> (r: Self)
        requires
            capacity * PRECISION <= u64::MAX,
        ensures
            r@ == (BucketState {
                capacity,
                window_nanos: window_nanos(window),
                tokens: (capacity * PRECISION) as u64,
                last_refill: now.0,
                consumed_in_window: 0,
                window_start: now.0,
            }),
            r@.wf(),
    {
        TokenBucket {
            capacity,
            window_nanos: window.as_nanos(),
            tokens: capacity * PRECISION,
            last_refill: now.0,
            consumed_in_window: 0,
            window_start: now.0,
        }
    }

    /// Refills tokens for the time elapsed and returns the fixed-point token count.
    fn refill(&mut self, now: Timestamp) -> (r: u64)
        requires
            old(self)@.wf(),
        ensures
            final(self)@ == old(self)@.refilled(now.0),
            final(self)@.wf(),
            r == final(self)@.tokens,
    {
        let elapsed = now.0.saturating_sub(self.last_refill);
        if elapsed == 0 {
            return self.tokens;
        }
        let max_tokens = self.capacity * PRECISION;
        assert((elapsed as int) * (max_tokens as int) <= (u64::MAX as int) * (u64::MAX as int))
            by (nonlinear_arith)
            requires
                elapsed <= u64::MAX,
                max_tokens <= u64::MAX,
        ;
        let product: u128 = (elapsed as u128) * (max_tokens as u128);
        let added = (product / (self.window_nanos as u128)) as u64;
        if added == 0 {
            return self.tokens;
        }
        self.last_refill = now.0;
        let new_tokens = if self.tokens.saturating_add(added) > max_tokens {
            max_tokens
        } else {
            self.tokens + added
        };
        self.tokens = new_tokens;
        if now.0.saturating_sub(self.window_start) >= self.window_nanos {
            self.consumed_in_window = 0;
            self.window_start = now.0;
        }
        new_tokens
    }

    /// Whether `amount` tokens are available at `now` (after refilling).
    pub fn check(&mut self, amount: u64, now: Timestamp) -> (r: bool)
        requires
            old(self)@.wf(),
            amount * PRECISION <= u64::MAX,
        ensures
            final(self)@ == old(self)@.refilled(now.0),
            final(self)@.wf(),
            r == (final(self)@.tokens >= amount * PRECISION),
    {
        let available = self.refill(now);
        available >= amount * PRECISION
    }

    /// Records consumption of `amount` tokens at `now`.
    pub fn record(&mut self, amount: u64, now: Timestamp)
        requires
            old(self)@.wf(),
            amount * PRECISION <= u64::MAX,
        ensures
            final(self)@ == old(self)@.consumed(amount, now.0),
            final(self)@.wf(),
    {
        self.refill(now);
        let cost = amount * PRECISION;
        let taken = if cost < self.tokens { cost } else { self.tokens };
        self.tokens = self.tokens - taken;
        self.consumed_in_window = self.consumed_in_window.wrapping_add(amount);
    }

    /// Whole tokens remaining at `now` (after refilling); never more than the capacity.
    pub fn remaining(&mut self, now: Timestamp) -> (r: u64)
        requires
            old(self)@.wf(),
        ensures
            final(self)@ == old(self)@.refilled(now.0),
            final(self)@.wf(),
            r == final(self)@.whole_tokens(),
            r <= final(self)@.capacity,
    {
        let tokens = self.refill(now);
        let r = tokens / PRECISION;
        assert(r <= self.capacity) by (nonlinear_arith)
            requires
                tokens <= self.capacity * PRECISION,
                r == tokens / PRECISION,
                PRECISION > 0,
        ;
        r
    }

    /// Total capacity (the limit).
    pub fn capacity(&self) -> (r: u64)
        ensures
            r == self@.capacity,
    {
        self.capacity
    }

    /// Units consumed in the current burn-rate window and the nanoseconds since it started.
    pub fn burn_window(&self, now: Timestamp) -> (r: BurnWindow)
        ensures
            r.consumed == self@.consumed_in_window,
            r.elapsed_nanos == saturating_sub_u64(now.0, self@.window_start),
    {
        BurnWindow {
            consumed: self.consumed_in_window,
            elapsed_nanos: now.0.saturating_sub(self.window_start),
        }
    }

    /// Resets the bucket to full, with its windows starting at `now`.
    pub fn reset(&mut self, now: Timestamp)
        requires
            old(self)@.wf(),
        ensures
            final(self)@ == old(self)@.reset_at(now.0),
            final(self)@.wf(),
    {
        self.tokens = self.capacity * PRECISION;
        self.last_refill = now.0;
        self.consumed_in_window = 0;
        self.window_start = now.0;
    }
}

} // verus!
