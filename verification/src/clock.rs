use vstd::prelude::*;

use crate::arith::{saturating_add_u64, saturating_sub_u64, wrapping_add_u64};

verus! {

/// Monotonic timestamp in nanoseconds since engine creation.
///
/// Uses monotonic time internally: immune to NTP drift, daylight saving, and clock rewinds.
#[derive(Debug, Clone, Copy, PartialEq, Eq, PartialOrd, Ord, Hash, Structural)]
pub struct Timestamp(pub u64);

/// Nanoseconds in one millisecond.
pub const NANOS_PER_MILLI: u64 = 1_000_000;

/// Nanoseconds in one second.
pub const NANOS_PER_SEC: u64 = 1_000_000_000;

impl Timestamp {
    /// The timestamp at the zero epoch (engine start).
    pub fn zero() -> (r: Timestamp)
        ensures
            r.0 == 0,
    {
        Timestamp(0)
    }

    /// Returns the timestamp value in nanoseconds.
    pub fn as_nanos(&self) -> (r: u64)
        ensures
            r == self.0,
    {
        self.0
    }

    /// Returns the timestamp value in whole milliseconds.
    pub fn as_millis(&self) -> (r: u64)
        ensures
            r == self.0 / NANOS_PER_MILLI,
    {
        self.0 / NANOS_PER_MILLI
    }

    /// Duration since another timestamp in nanoseconds; 0 if `other` is after `self`.
    pub fn duration_since(&self, other: Timestamp) -> (r: u64)
        ensures
            r == saturating_sub_u64(self.0, other.0),
    {
        self.0.saturating_sub(other.0)
    }

    /// Adds nanoseconds, saturating at the largest timestamp.
    pub fn add_nanos(&self, nanos: u64) -> (r: Timestamp)
        ensures
            r.0 == saturating_add_u64(self.0, nanos),
    {
        Timestamp(self.0.saturating_add(nanos))
    }

    /// Adds milliseconds, saturating at the largest timestamp.
    pub fn add_millis(&self, millis: u64) -> (r: Timestamp)
        requires
            millis * NANOS_PER_MILLI <= u64::MAX,
        ensures
            r.0 == saturating_add_u64(self.0, (millis * NANOS_PER_MILLI) as u64),
    {
        Timestamp(self.0.saturating_add(millis * NANOS_PER_MILLI))
    }

    /// Adds seconds, saturating at the largest timestamp.
    pub fn add_secs(&self, secs: u64) -> (r: Timestamp)
        requires
            secs * NANOS_PER_SEC <= u64::MAX,
        ensures
            r.0 == saturating_add_u64(self.0, (secs * NANOS_PER_SEC) as u64),
    {
        Timestamp(self.0.saturating_add(secs * NANOS_PER_SEC))
    }
}

/// Adding a duration to a timestamp and measuring back from the original gives the
/// duration again, as long as the sum does not saturate; measuring back to a later
/// timestamp gives zero.
pub proof fn lemma_add_then_measure(t: Timestamp, nanos: u64, later: Timestamp)
    requires
        t.0 + nanos <= u64::MAX,
        t.0 <= later.0,
    ensures
        saturating_sub_u64(saturating_add_u64(t.0, nanos), t.0) == nanos,
        saturating_sub_u64(t.0, later.0) == 0,
{
}

/// Advancing a mock clock by `a` and then by `b` leaves it where advancing it once by
/// `a + b` would.
pub proof fn lemma_advance_composes(start: u64, a: u64, b: u64)
    ensures
        wrapping_add_u64(wrapping_add_u64(start, a), b) == wrapping_add_u64(
            start,
            wrapping_add_u64(a, b),
        ),
{
}

/// Clock abstraction for monotonic time.
///
/// Use [`RealClock`] in production and [`MockClock`] for deterministic testing.
pub trait Clock: Send + Sync {
    /// Returns the current monotonic timestamp.
    fn now(&self) -> Timestamp;
}

#[verifier::external_type_specification]
#[verifier::external_body]
pub struct ExInstant(std::time::Instant);

/// `std::time::Instant::now`: the current instant of the monotonic clock.
/// Nothing is claimed of the value: it depends on the time of the call.
#[verifier::external_body]
fn instant_now() -> std::time::Instant {
    std::time::Instant::now()
}

/// `std::time::Instant::elapsed`: the time passed since the instant.
/// Nothing is claimed of the value: it depends on the time of the call.
#[verifier::external_body]
fn instant_elapsed(instant: &std::time::Instant) -> core::time::Duration {
    instant.elapsed()
}

/// `core::time::Duration::as_nanos`: the whole nanoseconds of a duration.
/// Nothing is claimed of the value, which this library cannot inspect.
#[verifier::external_body]
fn duration_as_nanos(duration: &core::time::Duration) -> u128 {
    duration.as_nanos()
}

/// Real monotonic clock backed by [`std::time::Instant`].
pub struct RealClock {
    epoch: std::time::Instant,
}

impl RealClock {
    /// Creates a clock whose epoch is the moment of the call.
    pub fn new() -> Self {
        RealClock { epoch: instant_now() }
    }
}

impl Default for RealClock {
    /// A clock whose epoch is the moment of the call (see `RealClock::new`).
    fn default() -> Self {
        Self::new()
    }
}

impl Clock for RealClock {
    /// The time elapsed since the epoch, in nanoseconds truncated to 64 bits.
    fn now(&self) -> Timestamp {
        let elapsed = instant_elapsed(&self.epoch);
        let nanos = duration_as_nanos(&elapsed);
        Timestamp(nanos as u64)
    }
}

/// Mock clock for deterministic testing.
///
/// Time only advances when explicitly told to, enabling fully reproducible test scenarios.
pub struct MockClock {
    nanos: u64,
}

impl View for MockClock {
    type V = u64;

    /// The current time of the clock, in nanoseconds.
    closed spec fn view(&self) -> u64 {
        self.nanos
    }
}

impl Default for MockClock {
    /// A mock clock at the zero epoch.
    fn default() -> (r: Self)
        ensures
            r@ == 0,
    {
        Self::new()
    }
}

impl MockClock {
    /// A mock clock at the zero epoch.
    pub fn new() -> (r: Self)
        ensures
            r@ == 0,
    {
        MockClock { nanos: 0 }
    }

    /// A mock clock starting at a specific timestamp.
    pub fn at(timestamp: Timestamp) -> (r: Self)
        ensures
            r@ == timestamp.0,
    {
        MockClock { nanos: timestamp.0 }
    }

    /// Advances time by the given number of nanoseconds (wrapping, as an atomic add does).
    pub fn advance_nanos(&mut self, nanos: u64)
        ensures
            final(self)@ == wrapping_add_u64(old(self)@, nanos),
    {
        self.nanos = self.nanos.wrapping_add(nanos);
    }

    /// Advances time by the given number of milliseconds.
    pub fn advance_ms(&mut self, ms: u64)
        requires
            ms * NANOS_PER_MILLI <= u64::MAX,
        ensures
            final(self)@ == wrapping_add_u64(old(self)@, (ms * NANOS_PER_MILLI) as u64),
    {
        self.advance_nanos(ms * NANOS_PER_MILLI);
    }

    /// Advances time by the given number of seconds.
    pub fn advance_secs(&mut self, secs: u64)
        requires
            secs * NANOS_PER_SEC <= u64::MAX,
        ensures
            final(self)@ == wrapping_add_u64(old(self)@, (secs * NANOS_PER_SEC) as u64),
    {
        self.advance_nanos(secs * NANOS_PER_SEC);
    }

    /// Sets time to a specific timestamp.
    pub fn set(&mut self, timestamp: Timestamp)
        ensures
            final(self)@ == timestamp.0,
    {
        self.nanos = timestamp.0;
    }
}

impl Clock for MockClock {
    /// The current timestamp of the clock.
    fn now(&self) -> (r: Timestamp)
        ensures
            r.0 == self@,
    {
        Timestamp(self.nanos)
    }
}

} // verus!
