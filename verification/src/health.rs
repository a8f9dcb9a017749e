use vstd::prelude::*;

use crate::arith::{min_u64, saturating_add_u64, saturating_sub_u64, wrapping_add_u64};
use crate::clock::{NANOS_PER_SEC, Timestamp};

verus! {

/// The counters and cooldown of a provider's health, as plain values.
#[derive(Debug, Clone, Copy, PartialEq, Eq)]
pub struct HealthView {
    /// Consecutive failures since the last success.
    pub consecutive_failures: u32,
    /// Length of the latest cooldown in seconds.
    pub current_cooldown_secs: u64,
    /// End of the cooldown in nanoseconds, if one was ever started.
    pub cooldown_until: Option<u64>,
    /// Time of the last observation in nanoseconds.
    pub last_observation: u64,
    /// Total observations.
    pub total_observations: u64,
    /// Total successes.
    pub total_successes: u64,
}

/// The value of `x.wrapping_add(y)` on 32 bits.
pub open spec fn wrapping_add_u32(x: u32, y: u32) -> u32 {
    if x + y > u32::MAX {
        (x + y - 0x1_0000_0000) as u32
    } else {
        (x + y) as u32
    }
}

impl HealthView {
    /// Health counters of a provider first seen at `now`: no failures, no cooldown.
    pub open spec fn fresh(now: u64) -> HealthView {
        HealthView {
            consecutive_failures: 0,
            current_cooldown_secs: 0,
            cooldown_until: None,
            last_observation: now,
            total_observations: 0,
            total_successes: 0,
        }
    }

    /// Whether the provider is in cooldown at `now`: a cooldown was started and `now`
    /// is before its end.
    pub open spec fn in_cooldown(self, now: u64) -> bool {
        match self.cooldown_until {
            Some(until) => now < until,
            None => false,
        }
    }

    /// The counters after a success at `now`: the failure streak ends.
    pub open spec fn after_success(self, now: u64) -> HealthView {
        HealthView {
            consecutive_failures: 0,
            total_observations: wrapping_add_u64(self.total_observations, 1),
            total_successes: wrapping_add_u64(self.total_successes, 1),
            last_observation: now,
            ..self
        }
    }

    /// The counters after a failure at `now`: the failure streak grows by one.
    pub open spec fn after_failure(self, now: u64) -> HealthView {
        HealthView {
            consecutive_failures: wrapping_add_u32(self.consecutive_failures, 1),
            total_observations: wrapping_add_u64(self.total_observations, 1),
            last_observation: now,
            ..self
        }
    }

    /// The cooldown's excess for a streak: `Some(streak - trigger_count)` once the
    /// streak has reached `trigger_count`, else `None`.
    pub open spec fn cooldown_excess(self, trigger_count: u32) -> Option<u32> {
        if self.consecutive_failures >= trigger_count {
            Some((self.consecutive_failures - trigger_count) as u32)
        } else {
            None
        }
    }

    /// The counters after a cooldown of `secs` seconds, capped at `max_secs`, starts at
    /// `now`.
    pub open spec fn cooling(self, now: u64, secs: u64, max_secs: u64) -> HealthView {
        let length = min_u64(secs, max_secs);
        HealthView {
            current_cooldown_secs: length,
            cooldown_until: Some(saturating_add_u64(now, (length * NANOS_PER_SEC) as u64)),
            ..self
        }
    }
}

/// Runtime health counters and cooldown for a single provider.
///
/// The health score and the latency average are floating-point values kept by the
/// caller; this state holds the failure streak, the cooldown, and the counts.
pub struct HealthState {
    consecutive_failures: u32,
    current_cooldown_secs: u64,
    cooldown_until: Option<Timestamp>,
    last_observation: Timestamp,
    total_observations: u64,
    total_successes: u64,
}

impl View for HealthState {
    type V = HealthView;

    closed spec fn view(&self) -> HealthView {
        HealthView {
            consecutive_failures: self.consecutive_failures,
            current_cooldown_secs: self.current_cooldown_secs,
            cooldown_until: match self.cooldown_until {
                Some(t) => Some(t.0),
                None => None,
            },
            last_observation: self.last_observation.0,
            total_observations: self.total_observations,
            total_successes: self.total_successes,
        }
    }
}

impl HealthState {
    /// Health counters of a provider first seen at `now`.
    pub fn new(now: Timestamp) -> (r: Self)
        ensures
            r@ == HealthView::fresh(now.0),
    {
        HealthState {
            consecutive_failures: 0,
            current_cooldown_secs: 0,
            cooldown_until: None,
            last_observation: now,
            total_observations: 0,
            total_successes: 0,
        }
    }

    /// Whether the provider is in cooldown at `now`.
    pub fn is_in_cooldown(&self, now: Timestamp) -> (r: bool)
        ensures
            r == self@.in_cooldown(now.0),
    {
        match self.cooldown_until {
            Some(until) => now.0 < until.0,
            None => false,
        }
    }

    /// Nanoseconds since the last observation (zero if that is after `now`); the
    /// health score decays toward full health over this time.
    pub fn since_last_observation(&self, now: Timestamp) -> (r: u64)
        ensures
            r == saturating_sub_u64(now.0, self@.last_observation),
    {
        now.duration_since(self.last_observation)
    }

    /// Total observations.
    pub fn total_observations(&self) -> (r: u64)
        ensures
            r == self@.total_observations,
    {
        self.total_observations
    }

    /// Total successes.
    pub fn total_successes(&self) -> (r: u64)
        ensures
            r == self@.total_successes,
    {
        self.total_successes
    }

    /// Consecutive failures since the last success.
    pub fn consecutive_failures(&self) -> (r: u32)
        ensures
            r == self@.consecutive_failures,
    {
        self.consecutive_failures
    }

    /// Length of the latest cooldown in seconds.
    pub fn current_cooldown_secs(&self) -> (r: u64)
        ensures
            r == self@.current_cooldown_secs,
    {
        self.current_cooldown_secs
    }

    /// Records a success at `now`: the failure streak ends; the cooldown is untouched.
    pub fn record_success(&mut self, now: Timestamp)
        ensures
            final(self)@ == old(self)@.after_success(now.0),
    {
        self.consecutive_failures = 0;
        self.total_observations = self.total_observations.wrapping_add(1);
        self.total_successes = self.total_successes.wrapping_add(1);
        self.last_observation = now;
    }

    /// Records a failure at `now` and returns how far the streak is past
    /// `trigger_count` when it has reached it: a cooldown is then due, growing with
    /// the excess. The cooldown itself is untouched here.
    pub fn record_failure(&mut self, now: Timestamp, trigger_count: u32) -> (r: Option<u32>)
        ensures
            final(self)@ == old(self)@.after_failure(now.0),
            r == final(self)@.cooldown_excess(trigger_count),
    {
        self.consecutive_failures = self.consecutive_failures.wrapping_add(1);
        self.total_observations = self.total_observations.wrapping_add(1);
        self.last_observation = now;
        if self.consecutive_failures >= trigger_count {
            Some(self.consecutive_failures - trigger_count)
        } else {
            None
        }
    }

    /// Starts a cooldown of `secs` seconds, capped at `max_secs`, at `now`.
    pub fn start_cooldown(&mut self, now: Timestamp, secs: u64, max_secs: u64)
        requires
            min_u64(secs, max_secs) * NANOS_PER_SEC <= u64::MAX,
        ensures
            final(self)@ == old(self)@.cooling(now.0, secs, max_secs),
    {
        let length = if secs < max_secs { secs } else { max_secs };
        self.current_cooldown_secs = length;
        self.cooldown_until = Some(now.add_secs(length));
    }
}

/// Cooldowns expire: once `max_secs` seconds have passed since a cooldown started,
/// the provider is out of cooldown, whatever length was asked for.
pub proof fn lemma_cooldown_expires(h: HealthView, start: u64, secs: u64, max_secs: u64, t: u64)
    requires
        t >= start + max_secs * NANOS_PER_SEC,
    ensures
        !h.cooling(start, secs, max_secs).in_cooldown(t),
{
    let length = min_u64(secs, max_secs);
    assert(length * NANOS_PER_SEC <= max_secs * NANOS_PER_SEC) by (nonlinear_arith)
        requires
            length <= max_secs,
    ;
}

/// Observations that start no cooldown leave the cooldown as it was: neither a
/// success nor a failure extends or ends it.
pub proof fn lemma_observations_keep_cooldown(h: HealthView, now: u64, t: u64)
    ensures
        h.after_success(now).in_cooldown(t) == h.in_cooldown(t),
        h.after_failure(now).in_cooldown(t) == h.in_cooldown(t),
{
}

/// Consecutive failures trigger a cooldown: starting from a success, the failure that
/// brings the streak to `trigger_count` (at least one) reports an excess of zero, and
/// the failures before it report none.
pub proof fn lemma_streak_triggers_cooldown(h: HealthView, now: u64, trigger_count: u32)
    requires
        trigger_count >= 1,
        h.consecutive_failures < trigger_count,
    ensures
        h.consecutive_failures + 1 < trigger_count ==> h.after_failure(now).cooldown_excess(
            trigger_count,
        ) is None,
        h.consecutive_failures + 1 == trigger_count ==> h.after_failure(now).cooldown_excess(
            trigger_count,
        ) == Some(0u32),
{
}

/// The excess that a failure reports is how far the streak is past the trigger count:
/// once the streak has reached it, the excess plus the trigger count is the streak,
/// and each further consecutive failure raises the excess by exactly one (while the
/// streak does not wrap).
pub proof fn lemma_excess_counts_the_streak(h: HealthView, now: u64, trigger_count: u32)
    requires
        h.consecutive_failures < u32::MAX,
    ensures
        h.consecutive_failures + 1 >= trigger_count <==> h.after_failure(now).cooldown_excess(
            trigger_count,
        ) is Some,
        h.after_failure(now).cooldown_excess(trigger_count) matches Some(e) ==> e + trigger_count
            == h.consecutive_failures + 1,
        h.cooldown_excess(trigger_count) matches Some(e) ==> h.after_failure(now).cooldown_excess(
            trigger_count,
        ) == Some((e + 1) as u32),
{
}

} // verus!
