use vstd::prelude::*;

use crate::arith::wrapping_add_u64;

verus! {

/// The engine's counters, as plain values.
#[derive(Debug, Clone, Copy, PartialEq, Eq)]
pub struct MetricsView {
    /// Total `select` calls.
    pub selects: u64,
    /// Total `observe` calls.
    pub observations: u64,
    /// Total times a provider was put on cooldown.
    pub cooldowns_triggered: u64,
    /// Total times `select` found no available providers.
    pub no_provider_available: u64,
}

/// Engine-level metrics counters for observability.
///
/// Every counter only ever grows by one at a time (wrapping at 2^64, as an atomic
/// add does).
pub struct Metrics {
    selects: u64,
    observations: u64,
    cooldowns_triggered: u64,
    no_provider_available: u64,
}

impl View for Metrics {
    type V = MetricsView;

    closed spec fn view(&self) -> MetricsView {
        MetricsView {
            selects: self.selects,
            observations: self.observations,
            cooldowns_triggered: self.cooldowns_triggered,
            no_provider_available: self.no_provider_available,
        }
    }
}

impl Metrics {
    /// All counters at zero.
    pub fn new() -> (r: Self)
        ensures
            r@ == (MetricsView {
                selects: 0,
                observations: 0,
                cooldowns_triggered: 0,
                no_provider_available: 0,
            }),
    {
        Metrics { selects: 0, observations: 0, cooldowns_triggered: 0, no_provider_available: 0 }
    }

    /// Total `select()` calls.
    pub fn selects(&self) -> (r: u64)
        ensures
            r == self@.selects,
    {
        self.selects
    }

    /// Total `observe()` calls.
    pub fn observations(&self) -> (r: u64)
        ensures
            r == self@.observations,
    {
        self.observations
    }

    /// Total times a provider was put on cooldown.
    pub fn cooldowns_triggered(&self) -> (r: u64)
        ensures
            r == self@.cooldowns_triggered,
    {
        self.cooldowns_triggered
    }

    /// Total times `select()` found no available providers.
    pub fn no_provider_available(&self) -> (r: u64)
        ensures
            r == self@.no_provider_available,
    {
        self.no_provider_available
    }

    /// Counts one `select` call.
    pub(crate) fn count_select(&mut self)
        ensures
            final(self)@ == (MetricsView {
                selects: wrapping_add_u64(old(self)@.selects, 1),
                ..old(self)@
            }),
    {
        self.selects = self.selects.wrapping_add(1);
    }

    /// Counts one `observe` call.
    pub(crate) fn count_observation(&mut self)
        ensures
            final(self)@ == (MetricsView {
                observations: wrapping_add_u64(old(self)@.observations, 1),
                ..old(self)@
            }),
    {
        self.observations = self.observations.wrapping_add(1);
    }

    /// Counts one cooldown that started.
    pub(crate) fn count_cooldown(&mut self)
        ensures
            final(self)@ == (MetricsView {
                cooldowns_triggered: wrapping_add_u64(old(self)@.cooldowns_triggered, 1),
                ..old(self)@
            }),
    {
        self.cooldowns_triggered = self.cooldowns_triggered.wrapping_add(1);
    }

    /// Counts one `select` call that found no available provider.
    pub(crate) fn count_no_provider(&mut self)
        ensures
            final(self)@ == (MetricsView {
                no_provider_available: wrapping_add_u64(old(self)@.no_provider_available, 1),
                ..old(self)@
            }),
    {
        self.no_provider_available = self.no_provider_available.wrapping_add(1);
    }
}

impl Default for Metrics {
    fn default() -> (r: Self)
        ensures
            r@ == (MetricsView {
                selects: 0,
                observations: 0,
                cooldowns_triggered: 0,
                no_provider_available: 0,
            }),
    {
        Self::new()
    }
}

} // verus!
