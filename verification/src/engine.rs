use vstd::prelude::*;

use crate::capability::{CapabilityConfig, CapabilityProvider};
use crate::arith::{min_u64, wrapping_add_u64};
use crate::clock::{NANOS_PER_SEC, Timestamp};
use crate::error::Error;
use crate::health::{HealthState, HealthView};
use crate::metrics::{Metrics, MetricsView};
use crate::observation::{Observation, StatusClass, Usage, usage_amount, usage_amount_spec};
use crate::provider::ProviderConfig;
use crate::quota::{
    Dimension, QuotaConfig, QuotaSample, QuotaTracker, TrackerState, create_tracker,
    initial_tracker,
};

verus! {

/// A provider's runtime state, as plain values.
pub struct ProviderView<H> {
    /// The provider's configuration.
    pub config: ProviderConfig,
    /// Failure streak, cooldown and counts.
    pub health: HealthView,
    /// One tracker per quota, in the order of the configuration.
    pub trackers: Seq<(QuotaConfig, TrackerState)>,
    /// The caller's own per-provider state.
    pub extra: H,
}

impl<H> ProviderView<H> {
    /// The provider's name.
    pub open spec fn name(self) -> Seq<char> {
        self.config.name@
    }
}

/// A capability, as plain values: its name and its providers with their priorities.
pub struct CapabilityView {
    /// The capability's name.
    pub name: Seq<char>,
    /// The providers, in order, with their priority for this capability.
    pub providers: Seq<(Seq<char>, u16)>,
}

/// The engine's registry, as plain values.
pub struct CoreView<H> {
    /// Registered providers, in registration order.
    pub providers: Seq<ProviderView<H>>,
    /// Registered capabilities.
    pub capabilities: Seq<CapabilityView>,
    /// Counters.
    pub metrics: MetricsView,
    /// Consecutive failures that trigger a cooldown.
    pub cooldown_trigger_count: u32,
    /// Longest cooldown in seconds.
    pub max_cooldown_seconds: u64,
}

/// The trackers created for a list of quotas at `now`, one per quota, in order.
pub open spec fn initial_trackers(quotas: Seq<QuotaConfig>, now: u64) -> Seq<(QuotaConfig, TrackerState)> {
    Seq::new(quotas.len(), |i: int| (quotas[i], initial_tracker(quotas[i], now)))
}

/// The view of a list of trackers with their quotas.
pub open spec fn trackers_view(ts: Seq<(QuotaConfig, QuotaTracker)>) -> Seq<(QuotaConfig, TrackerState)> {
    Seq::new(ts.len(), |i: int| (ts[i].0, ts[i].1@))
}

/// The trackers after a usage is recorded at `now`: each tracker records the amount
/// of the usage in its dimension, when that amount is not zero.
pub open spec fn trackers_after_usage(
    trackers: Seq<(QuotaConfig, TrackerState)>,
    usage: Usage,
    now: u64,
) -> Seq<(QuotaConfig, TrackerState)> {
    Seq::new(
        trackers.len(),
        |i: int|
            {
                let t = trackers[i];
                let amount = usage_amount_spec(t.0.dimension, usage);
                (t.0, if amount > 0 { t.1.recorded(amount, now) } else { t.1 })
            },
    )
}

/// The trackers after each of them answers a query at `now`.
pub open spec fn trackers_queried(
    trackers: Seq<(QuotaConfig, TrackerState)>,
    now: u64,
) -> Seq<(QuotaConfig, TrackerState)> {
    Seq::new(trackers.len(), |i: int| (trackers[i].0, trackers[i].1.queried(now)))
}

/// The view of a capability configuration.
pub open spec fn capability_view(c: CapabilityConfig) -> CapabilityView {
    CapabilityView {
        name: c.name@,
        providers: Seq::new(
            c.providers@.len(),
            |i: int| (c.providers@[i].provider@, c.providers@[i].priority),
        ),
    }
}

/// The highest priority among a capability's providers (zero for none).
pub open spec fn max_priority(providers: Seq<(Seq<char>, u16)>) -> u16
    decreases providers.len(),
{
    if providers.len() == 0 {
        0
    } else {
        let rest = max_priority(providers.drop_last());
        if providers.last().1 > rest {
            providers.last().1
        } else {
            rest
        }
    }
}

/// A call on the registry, as its counters and cooldowns see it.
pub enum CoreCall {
    /// `select_candidates` for a capability.
    Select { capability: Seq<char> },
    /// `observe`.
    Observe,
    /// `apply_cooldown` for a provider at a time.
    Cooldown { provider: Seq<char>, now: u64 },
    /// `record_no_provider_available`.
    NoProvider,
    /// Any other call that changes the registry: the upserts, quota samples and
    /// lookups, and the caller state.
    Other,
}

impl<H> CoreView<H> {
    /// Whether a selection for this capability finds no available provider before
    /// looking at any: the capability is registered with no providers.
    pub open spec fn lists_no_provider(self, capability: Seq<char>) -> bool {
        match self.capability_index(capability) {
            Some(k) => self.capabilities[k].providers.len() == 0,
            None => false,
        }
    }

    /// Whether `call`, made on this registry, finds no available provider: a selection
    /// for a capability without providers, or a recorded one.
    pub open spec fn finds_none(self, call: CoreCall) -> bool {
        match call {
            CoreCall::Select { capability } => self.lists_no_provider(capability),
            CoreCall::NoProvider => true,
            _ => false,
        }
    }

    /// Whether `call`, leading to `after`, put a provider into cooldown at the call's
    /// time from outside one.
    pub open spec fn cooldown_starts(self, call: CoreCall, after: CoreView<H>) -> bool {
        match call {
            CoreCall::Cooldown { provider, now } => match self.index_of(provider) {
                Some(i) => !self.providers[i].health.in_cooldown(now)
                    && after.providers[i].health.in_cooldown(now),
                None => false,
            },
            _ => false,
        }
    }

    /// What every call does to the counters and cooldowns, as `after` shows it: each
    /// counter counts its own calls (wrapping at 2^64); providers keep their places and
    /// names, new ones come without a cooldown, and a provider's cooldown changes only
    /// through a cooldown call for it once its failure streak has reached the trigger
    /// count, and then ends within the longest cooldown of the call's time.
    pub open spec fn call_effect(self, call: CoreCall, after: CoreView<H>) -> bool {
        &&& after.metrics.selects == if call is Select {
            wrapping_add_u64(self.metrics.selects, 1)
        } else {
            self.metrics.selects
        }
        &&& after.metrics.observations == if call is Observe {
            wrapping_add_u64(self.metrics.observations, 1)
        } else {
            self.metrics.observations
        }
        &&& after.metrics.no_provider_available == if self.finds_none(call) {
            wrapping_add_u64(self.metrics.no_provider_available, 1)
        } else {
            self.metrics.no_provider_available
        }
        &&& after.metrics.cooldowns_triggered == if self.cooldown_starts(call, after) {
            wrapping_add_u64(self.metrics.cooldowns_triggered, 1)
        } else {
            self.metrics.cooldowns_triggered
        }
        &&& after.cooldown_trigger_count == self.cooldown_trigger_count
        &&& after.max_cooldown_seconds == self.max_cooldown_seconds
        &&& self.providers.len() <= after.providers.len()
        &&& forall|k: int|
            0 <= k < self.providers.len() ==> #[trigger] after.providers[k].name()
                == self.providers[k].name()
        &&& forall|k: int|
            self.providers.len() <= k < after.providers.len()
                ==> #[trigger] after.providers[k].health.cooldown_until is None
        &&& forall|k: int|
            #![trigger after.providers[k]]
            0 <= k < self.providers.len() && after.providers[k].health.cooldown_until
                != self.providers[k].health.cooldown_until ==> {
                &&& call is Cooldown
                &&& call->provider == self.providers[k].name()
                &&& self.providers[k].health.consecutive_failures >= self.cooldown_trigger_count
                &&& after.providers[k].health.cooldown_until matches Some(until) && until
                    <= call->now + self.max_cooldown_seconds * NANOS_PER_SEC
            }
    }
}

/// A provider of a capability that is registered, as plain values.
pub struct CandidateView {
    /// The provider's name.
    pub provider: Seq<char>,
    /// Its priority for the capability.
    pub priority: u16,
    /// The highest priority among the capability's providers.
    pub max_priority: u16,
    /// Whether it is in cooldown.
    pub in_cooldown: bool,
}

/// A provider of a capability that is registered, with what selection needs to know.
#[derive(Debug, Clone)]
pub struct Candidate {
    /// The provider's name.
    pub provider: String,
    /// Its priority for the capability.
    pub priority: u16,
    /// The highest priority among the capability's providers.
    pub max_priority: u16,
    /// Whether it is in cooldown.
    pub in_cooldown: bool,
}

impl View for Candidate {
    type V = CandidateView;

    open spec fn view(&self) -> CandidateView {
        CandidateView {
            provider: self.provider@,
            priority: self.priority,
            max_priority: self.max_priority,
            in_cooldown: self.in_cooldown,
        }
    }
}

/// What an observation leaves for the caller's floating-point health update.
#[derive(Debug, Clone, Copy, PartialEq, Eq, Structural)]
pub struct ObserveStep {
    /// Nanoseconds from the previous observation of the provider to this one.
    pub elapsed_nanos: u64,
    /// The provider's total observations, this one included.
    pub total_observations: u64,
    /// For a failure whose streak has reached the trigger count, how far past it the
    /// streak is: a cooldown is then due, growing with this excess.
    pub failure_excess: Option<u32>,
    /// The provider's base cooldown in seconds.
    pub cooldown_seconds: u64,
}

impl<H> CoreView<H> {
    /// Whether a provider of this name is registered.
    pub open spec fn has_provider(self, name: Seq<char>) -> bool {
        exists|i: int| 0 <= i < self.providers.len() && #[trigger] self.providers[i].name() == name
    }

    /// The position of the provider of this name, if registered.
    pub open spec fn index_of(self, name: Seq<char>) -> Option<int> {
        if self.has_provider(name) {
            Some(
                choose|i: int|
                    0 <= i < self.providers.len() && #[trigger] self.providers[i].name() == name,
            )
        } else {
            None
        }
    }

    /// Whether a capability of this name is registered.
    pub open spec fn has_capability(self, name: Seq<char>) -> bool {
        exists|i: int|
            0 <= i < self.capabilities.len() && #[trigger] self.capabilities[i].name == name
    }

    /// The position of the capability of this name, if registered.
    pub open spec fn capability_index(self, name: Seq<char>) -> Option<int> {
        if self.has_capability(name) {
            Some(
                choose|i: int|
                    0 <= i < self.capabilities.len() && #[trigger] self.capabilities[i].name
                        == name,
            )
        } else {
            None
        }
    }

    /// The registry's invariant: names are unique, and every tracker is a token bucket
    /// or a concurrency limiter in good order whose capacity is the limit of its quota.
    pub open spec fn wf(self) -> bool {
        &&& forall|i: int, j: int|
            0 <= i < j < self.providers.len() ==> self.providers[i].name()
                != self.providers[j].name()
        &&& forall|i: int, j: int|
            0 <= i < j < self.capabilities.len() ==> self.capabilities[i].name
                != self.capabilities[j].name
        &&& forall|i: int, j: int|
            0 <= i < self.providers.len() && 0 <= j < self.providers[i].trackers.len() ==> {
                let t = #[trigger] self.providers[i].trackers[j];
                &&& t.1.wf()
                &&& (t.1 is Bucket || t.1 is Concurrency)
                &&& t.1.capacity() == t.0.limit
            }
    }

    /// Whether recording a usage against the named provider's trackers stays within
    /// 64-bit arithmetic (a token bucket counts each unit as `PRECISION` fixed-point
    /// units).
    pub open spec fn usage_fits(self, name: Seq<char>, usage: Usage) -> bool {
        match self.index_of(name) {
            Some(i) => forall|j: int|
                0 <= j < self.providers[i].trackers.len() ==> {
                    let t = #[trigger] self.providers[i].trackers[j];
                    t.1.can_record(usage_amount_spec(t.0.dimension, usage), 0)
                },
            None => true,
        }
    }

    /// The registry after registering or updating a provider at `now` (see
    /// `EngineCore::upsert_provider`).
    pub open spec fn with_provider(self, config: ProviderConfig, now: u64, fresh: H) -> CoreView<H> {
        match self.index_of(config.name@) {
            Some(i) => CoreView {
                providers: self.providers.update(
                    i,
                    ProviderView {
                        config,
                        health: self.providers[i].health,
                        trackers: initial_trackers(config.quotas@, now),
                        extra: self.providers[i].extra,
                    },
                ),
                ..self
            },
            None => CoreView {
                providers: self.providers.push(
                    ProviderView {
                        config,
                        health: HealthView::fresh(now),
                        trackers: initial_trackers(config.quotas@, now),
                        extra: fresh,
                    },
                ),
                ..self
            },
        }
    }

    /// The registered providers of a capability's list, in order, with their
    /// cooldown state at `now`.
    pub open spec fn candidates(
        self,
        providers: Seq<(Seq<char>, u16)>,
        max_p: u16,
        now: u64,
    ) -> Seq<CandidateView>
        decreases providers.len(),
    {
        if providers.len() == 0 {
            Seq::empty()
        } else {
            let rest = self.candidates(providers.drop_last(), max_p, now);
            let last = providers.last();
            match self.index_of(last.0) {
                Some(i) => rest.push(
                    CandidateView {
                        provider: last.0,
                        priority: last.1,
                        max_priority: max_p,
                        in_cooldown: self.providers[i].health.in_cooldown(now),
                    },
                ),
                None => rest,
            }
        }
    }
}

impl<H> CoreView<H> {
    /// The candidates whose provider is registered and not in cooldown at `now`, in
    /// order.
    pub open spec fn available(self, cands: Seq<CandidateView>, now: u64) -> Seq<CandidateView>
        decreases cands.len(),
    {
        if cands.len() == 0 {
            Seq::empty()
        } else {
            let rest = self.available(cands.drop_last(), now);
            let last = cands.last();
            match self.index_of(last.provider) {
                Some(i) => if self.providers[i].health.in_cooldown(now) {
                    rest
                } else {
                    rest.push(last)
                },
                None => rest,
            }
        }
    }
}

impl<H> ProviderView<H> {
    /// The provider after an observation at `now`: every tracker records the usage
    /// in its dimension, and the outcome counts as a success (success or ordinary
    /// client error) or as a failure.
    pub open spec fn observed(self, usage: Usage, status: StatusClass, now: u64) -> ProviderView<H> {
        ProviderView {
            trackers: trackers_after_usage(self.trackers, usage, now),
            health: if status.counts_as_success() {
                self.health.after_success(now)
            } else {
                self.health.after_failure(now)
            },
            ..self
        }
    }
}

/// The position of the first tracker of a dimension, if any.
pub open spec fn first_with_dimension(
    trackers: Seq<(QuotaConfig, TrackerState)>,
    dimension: Dimension,
) -> Option<int>
    decreases trackers.len(),
{
    if trackers.len() == 0 {
        None
    } else {
        match first_with_dimension(trackers.drop_last(), dimension) {
            Some(k) => Some(k),
            None => if trackers.last().0.dimension == dimension {
                Some(trackers.len() - 1)
            } else {
                None
            },
        }
    }
}

/// A prefix that already holds a tracker of the dimension finds the same one as the
/// whole list.
proof fn lemma_first_with_dimension_prefix(
    trackers: Seq<(QuotaConfig, TrackerState)>,
    dimension: Dimension,
    j: int,
)
    requires
        0 <= j < trackers.len(),
        first_with_dimension(trackers.take(j + 1), dimension) == Some(j),
    ensures
        first_with_dimension(trackers, dimension) == Some(j),
    decreases trackers.len(),
{
    if trackers.len() == j + 1 {
        assert(trackers.take(j + 1) =~= trackers);
    } else {
        let shorter = trackers.drop_last();
        assert(shorter.take(j + 1) =~= trackers.take(j + 1));
        lemma_first_with_dimension_prefix(shorter, dimension, j);
    }
}

/// The views of a list of candidates.
pub open spec fn candidates_view(v: Seq<Candidate>) -> Seq<CandidateView> {
    Seq::new(v.len(), |i: int| v[i]@)
}

/// What sampling a tracker at `now` reports.
pub open spec fn sample_of(t: TrackerState, now: u64) -> QuotaSample {
    QuotaSample {
        capacity: t.capacity(),
        remaining: t.remaining(now),
        burn: t.queried(now).burn(now),
    }
}

/// Internal runtime state for a provider.
pub struct ProviderRuntime<H> {
    config: ProviderConfig,
    health: HealthState,
    quota_trackers: Vec<(QuotaConfig, QuotaTracker)>,
    extra: H,
}

impl<H> View for ProviderRuntime<H> {
    type V = ProviderView<H>;

    closed spec fn view(&self) -> ProviderView<H> {
        ProviderView {
            config: self.config,
            health: self.health@,
            trackers: trackers_view(self.quota_trackers@),
            extra: self.extra,
        }
    }
}

impl<H> ProviderRuntime<H> {
    /// Records a usage at `now` in every tracker, each by its dimension's amount.
    fn apply_usage(&mut self, usage: &Usage, now: Timestamp)
        requires
            forall|j: int|
                0 <= j < old(self)@.trackers.len() ==> {
                    let t = #[trigger] old(self)@.trackers[j];
                    &&& t.1.wf()
                    &&& (t.1 is Bucket || t.1 is Concurrency)
                    &&& t.1.can_record(usage_amount_spec(t.0.dimension, *usage), 0)
                },
        ensures
            final(self)@ == (ProviderView {
                trackers: trackers_after_usage(old(self)@.trackers, *usage, now.0),
                ..old(self)@
            }),
            forall|j: int|
                0 <= j < final(self)@.trackers.len() ==> {
                    let t = #[trigger] final(self)@.trackers[j].1;
                    &&& t.wf()
                    &&& (t is Bucket || t is Concurrency)
                },
    {
        let ghost orig = old(self)@.trackers;
        let n = self.quota_trackers.len();
        for j in 0..n
            invariant
                n == self.quota_trackers@.len(),
                n == orig.len(),
                self@.config == old(self)@.config,
                self@.health == old(self)@.health,
                self@.extra == old(self)@.extra,
                forall|k: int|
                    0 <= k < orig.len() ==> {
                        let t = #[trigger] orig[k];
                        &&& t.1.wf()
                        &&& (t.1 is Bucket || t.1 is Concurrency)
                        &&& t.1.can_record(usage_amount_spec(t.0.dimension, *usage), 0)
                    },
                forall|k: int|
                    0 <= k < n ==> #[trigger] self@.trackers[k] == if k < j {
                        trackers_after_usage(orig, *usage, now.0)[k]
                    } else {
                        orig[k]
                    },
        {
            let dimension = self.quota_trackers[j].0.dimension;
            let amount = usage_amount(dimension, usage);
            let ghost before = self.quota_trackers@;
            proof {
                assert(self@.trackers[j as int] == orig[j as int]);
                assert(before[j as int].0 == orig[j as int].0);
                assert(before[j as int].1@ == orig[j as int].1);
            }
            if amount > 0 {
                self.quota_trackers[j].1.record(amount, now);
            }
            proof {
                assert forall|k: int| 0 <= k < n && k != j implies #[trigger] self.quota_trackers@[k]
                    == before[k] by {}
                let expected = trackers_after_usage(orig, *usage, now.0)[j as int];
                assert(self.quota_trackers@[j as int].0 == expected.0);
                assert(self.quota_trackers@[j as int].1@ == expected.1);
                assert forall|k: int| 0 <= k < n implies #[trigger] self@.trackers[k] == if k < j + 1 {
                    trackers_after_usage(orig, *usage, now.0)[k]
                } else {
                    orig[k]
                } by {
                    assert(self@.trackers[k] == (self.quota_trackers@[k].0, self.quota_trackers@[k].1@));
                    if k != j {
                        assert(self.quota_trackers@[k] == before[k]);
                        assert(trackers_view(before)[k] == (before[k].0, before[k].1@));
                    }
                }
            }
        }
        proof {
            assert(self@.trackers =~= trackers_after_usage(orig, *usage, now.0));
        }
    }
}

/// The provider and capability registry of the engine, with its counters.
///
/// `H` is the caller's own per-provider state, kept across re-registrations of the
/// provider like the health counters are.
pub struct EngineCore<H> {
    providers: Vec<ProviderRuntime<H>>,
    capabilities: Vec<CapabilityConfig>,
    metrics: Metrics,
    cooldown_trigger_count: u32,
    max_cooldown_seconds: u64,
}

impl<H> View for EngineCore<H> {
    type V = CoreView<H>;

    closed spec fn view(&self) -> CoreView<H> {
        CoreView {
            providers: Seq::new(self.providers@.len(), |i: int| self.providers@[i]@),
            capabilities: Seq::new(
                self.capabilities@.len(),
                |i: int| capability_view(self.capabilities@[i]),
            ),
            metrics: self.metrics@,
            cooldown_trigger_count: self.cooldown_trigger_count,
            max_cooldown_seconds: self.max_cooldown_seconds,
        }
    }
}

/// Creates one tracker per quota at `now`, in order.
fn build_trackers(quotas: &Vec<QuotaConfig>, now: Timestamp) -> (r: Vec<(QuotaConfig, QuotaTracker)>)
    requires
        forall|i: int| 0 <= i < quotas@.len() ==> crate::quota::quota_fits(#[trigger] quotas@[i]),
    ensures
        trackers_view(r@) == initial_trackers(quotas@, now.0),
        forall|j: int|
            0 <= j < r@.len() ==> {
                let t = #[trigger] r@[j].1@;
                &&& t.wf()
                &&& (t is Bucket || t is Concurrency)
            },
{
    let mut r: Vec<(QuotaConfig, QuotaTracker)> = Vec::new();
    let n = quotas.len();
    for i in 0..n
        invariant
            n == quotas@.len(),
            forall|k: int| 0 <= k < quotas@.len() ==> crate::quota::quota_fits(#[trigger] quotas@[k]),
            r@.len() == i,
            trackers_view(r@) == initial_trackers(quotas@.take(i as int), now.0),
            forall|j: int|
                0 <= j < r@.len() ==> {
                    let t = #[trigger] r@[j].1@;
                    &&& t.wf()
                    &&& (t is Bucket || t is Concurrency)
                },
    {
        let q = quotas[i];
        let tracker = create_tracker(&q, now);
        let ghost before = r@;
        let ghost tv = tracker@;
        r.push((q, tracker));
        proof {
            assert(r@[i as int].1@ == tv);
            assert forall|j: int| 0 <= j < r@.len() implies {
                let t = #[trigger] r@[j].1@;
                &&& t.wf()
                &&& (t is Bucket || t is Concurrency)
            } by {
                if j < i {
                    assert(r@[j] == before[j]);
                }
            }
            assert(quotas@.take(i + 1) =~= quotas@.take(i as int).push(q));
            assert forall|k: int| 0 <= k < i + 1 implies #[trigger] trackers_view(r@)[k]
                == initial_trackers(quotas@.take(i + 1), now.0)[k] by {
                if k < i {
                    assert(trackers_view(before)[k] == initial_trackers(
                        quotas@.take(i as int),
                        now.0,
                    )[k]);
                }
            }
            assert(trackers_view(r@) =~= initial_trackers(quotas@.take(i + 1), now.0));
        }
    }
    proof {
        assert(quotas@.take(n as int) =~= quotas@);
    }
    r
}

/// With unique names, the position of a name is the one that holds it.
proof fn lemma_index_of_unique<H>(v: CoreView<H>, i: int)
    requires
        v.wf(),
        0 <= i < v.providers.len(),
    ensures
        v.index_of(v.providers[i].name()) == Some(i),
{
    let name = v.providers[i].name();
    assert(v.has_provider(name));
    let j = choose|j: int| 0 <= j < v.providers.len() && #[trigger] v.providers[j].name() == name;
    if j != i {
        if j < i {
            assert(v.providers[j].name() != v.providers[i].name());
        } else {
            assert(v.providers[i].name() != v.providers[j].name());
        }
    }
}

/// With unique names, the position of a capability name is the one that holds it.
proof fn lemma_capability_index_unique<H>(v: CoreView<H>, i: int)
    requires
        v.wf(),
        0 <= i < v.capabilities.len(),
    ensures
        v.capability_index(v.capabilities[i].name) == Some(i),
{
    let name = v.capabilities[i].name;
    assert(v.has_capability(name));
    let j = choose|j: int|
        0 <= j < v.capabilities.len() && #[trigger] v.capabilities[j].name == name;
    if j != i {
        if j < i {
            assert(v.capabilities[j].name != v.capabilities[i].name);
        } else {
            assert(v.capabilities[i].name != v.capabilities[j].name);
        }
    }
}

impl<H> EngineCore<H> {
    /// The registry's invariant.
    pub open spec fn wf(&self) -> bool {
        self@.wf()
    }

    /// An empty registry whose cooldowns start after `cooldown_trigger_count`
    /// consecutive failures and last at most `max_cooldown_seconds`.
    pub fn new(cooldown_trigger_count: u32, max_cooldown_seconds: u64) -> (r: Self)
        ensures
            r.wf(),
            r@.providers.len() == 0,
            r@.capabilities.len() == 0,
            r@.metrics == (MetricsView {
                selects: 0,
                observations: 0,
                cooldowns_triggered: 0,
                no_provider_available: 0,
            }),
            r@.cooldown_trigger_count == cooldown_trigger_count,
            r@.max_cooldown_seconds == max_cooldown_seconds,
    {
        let r = EngineCore {
            providers: Vec::new(),
            capabilities: Vec::new(),
            metrics: Metrics::new(),
            cooldown_trigger_count,
            max_cooldown_seconds,
        };
        assert(r@.providers =~= Seq::<ProviderView<H>>::empty());
        assert(r@.capabilities =~= Seq::<CapabilityView>::empty());
        r
    }

    /// Registers or updates a provider and its quotas at `now`.
    ///
    /// An existing provider of the same name gets the new configuration and fresh
    /// quota trackers; its health counters, cooldown and caller state are kept. A new
    /// provider starts with fresh health counters and the caller state `fresh`.
    pub fn upsert_provider(&mut self, config: ProviderConfig, now: Timestamp, fresh: H)
        requires
            old(self).wf(),
            config.quotas_fit(),
        ensures
            old(self)@.call_effect(CoreCall::Other, final(self)@),
            final(self).wf(),
            final(self)@ == old(self)@.with_provider(config, now.0, fresh),
    {
        let trackers = build_trackers(&config.quotas, now);
        let found = self.find_provider(&config.name);
        let ghost old_view = self@;
        let ghost old_providers = self.providers@;
        match found {
            Some(i) => {
                self.providers[i].config = config;
                self.providers[i].quota_trackers = trackers;
                proof {
                    assert(self.providers@.len() == old_providers.len());
                    assert forall|k: int| 0 <= k < old_providers.len() && k != i implies
                        #[trigger] self.providers@[k] == old_providers[k] by {}
                    assert(self.providers@[i as int]@.health == old_view.providers[i as int].health);
                    assert(self.providers@[i as int]@.extra == old_view.providers[i as int].extra);
                    assert(old_view.has_provider(config.name@));
                    assert(old_view.providers[i as int].name() == config.name@);
                    assert forall|k: int| 0 <= k < self@.providers.len() && k != i implies
                        #[trigger] self@.providers[k] == old_view.providers[k] by {
                        assert(self.providers@[k] == old_providers[k]);
                    }
                    assert(self@.providers =~= old_view.providers.update(
                        i as int,
                        ProviderView {
                            config,
                            health: old_view.providers[i as int].health,
                            trackers: initial_trackers(config.quotas@, now.0),
                            extra: old_view.providers[i as int].extra,
                        },
                    ));
                }
            },
            None => {
                let runtime = ProviderRuntime {
                    config,
                    health: HealthState::new(now),
                    quota_trackers: trackers,
                    extra: fresh,
                };
                let ghost new_view = runtime@;
                self.providers.push(runtime);
                proof {
                    assert forall|k: int| 0 <= k < old_view.providers.len() implies
                        #[trigger] self@.providers[k] == old_view.providers[k] by {
                        assert(self.providers@[k] == old_providers[k]);
                    }
                    assert(self@.providers[old_view.providers.len() as int] == new_view);
                    assert(self@.providers =~= old_view.providers.push(new_view));
                    assert forall|k: int| 0 <= k < old_view.providers.len() implies
                        #[trigger] old_view.providers[k].name() != config.name@ by {
                        if old_view.providers[k].name() == config.name@ {
                            assert(old_view.has_provider(config.name@));
                        }
                    }
                }
            },
        }
        proof {
            assert(self@.capabilities =~= old_view.capabilities);
        }
    }

    /// Registers or replaces a capability and its provider list.
    pub fn upsert_capability(&mut self, config: CapabilityConfig)
        requires
            old(self).wf(),
        ensures
            old(self)@.call_effect(CoreCall::Other, final(self)@),
            final(self).wf(),
            final(self)@.providers == old(self)@.providers,
            final(self)@.metrics == old(self)@.metrics,
            final(self)@.cooldown_trigger_count == old(self)@.cooldown_trigger_count,
            final(self)@.max_cooldown_seconds == old(self)@.max_cooldown_seconds,
            match old(self)@.capability_index(config.name@) {
                Some(i) => final(self)@.capabilities == old(self)@.capabilities.update(
                    i,
                    capability_view(config),
                ),
                None => final(self)@.capabilities == old(self)@.capabilities.push(
                    capability_view(config),
                ),
            },
    {
        let found = self.find_capability(&config.name);
        let ghost old_view = self@;
        let ghost old_caps = self.capabilities@;
        let ghost cv = capability_view(config);
        match found {
            Some(i) => {
                self.capabilities.set(i, config);
                proof {
                    assert forall|k: int| 0 <= k < old_caps.len() && k != i implies
                        #[trigger] self@.capabilities[k] == old_view.capabilities[k] by {
                        assert(self.capabilities@[k] == old_caps[k]);
                    }
                    assert(self@.capabilities =~= old_view.capabilities.update(i as int, cv));
                }
            },
            None => {
                self.capabilities.push(config);
                proof {
                    assert forall|k: int| 0 <= k < old_caps.len() implies
                        #[trigger] self@.capabilities[k] == old_view.capabilities[k] by {
                        assert(self.capabilities@[k] == old_caps[k]);
                    }
                    assert(self@.capabilities =~= old_view.capabilities.push(cv));
                    assert forall|k: int| 0 <= k < old_view.capabilities.len() implies
                        #[trigger] old_view.capabilities[k].name != cv.name by {
                        if old_view.capabilities[k].name == cv.name {
                            assert(old_view.has_capability(cv.name));
                        }
                    }
                }
            },
        }
        proof {
            assert(self@.providers =~= old_view.providers);
        }
    }

    /// Reports an observation at `now`: the provider's trackers record the usage and
    /// its health counters record the outcome.
    ///
    /// The observation counter always grows. An unregistered provider is an error
    /// and changes nothing else. The result tells the caller what its floating-point
    /// health update needs, and whether a cooldown is due (see `apply_cooldown`).
    pub fn observe(&mut self, obs: &Observation, now: Timestamp) -> (r: Result<ObserveStep, Error>)
        requires
            old(self).wf(),
            old(self)@.usage_fits(obs.provider@, obs.usage),
        ensures
            old(self)@.call_effect(CoreCall::Observe, final(self)@),
            final(self).wf(),
            final(self)@.capabilities == old(self)@.capabilities,
            final(self)@.cooldown_trigger_count == old(self)@.cooldown_trigger_count,
            final(self)@.max_cooldown_seconds == old(self)@.max_cooldown_seconds,
            final(self)@.metrics == (MetricsView {
                observations: crate::arith::wrapping_add_u64(old(self)@.metrics.observations, 1),
                ..old(self)@.metrics
            }),
            match old(self)@.index_of(obs.provider@) {
                None => {
                    &&& r matches Err(Error::UnknownProvider(name)) && name@ == obs.provider@
                    &&& final(self)@.providers == old(self)@.providers
                },
                Some(i) => {
                    let p = old(self)@.providers[i];
                    let q = p.observed(obs.usage, obs.outcome.status, now.0);
                    &&& final(self)@.providers == old(self)@.providers.update(i, q)
                    &&& r == Ok::<ObserveStep, Error>(
                        ObserveStep {
                            elapsed_nanos: crate::arith::saturating_sub_u64(
                                now.0,
                                p.health.last_observation,
                            ),
                            total_observations: q.health.total_observations,
                            failure_excess: if obs.outcome.status.counts_as_success() {
                                None
                            } else {
                                q.health.cooldown_excess(old(self)@.cooldown_trigger_count)
                            },
                            cooldown_seconds: p.config.cooldown_seconds,
                        },
                    )
                },
            },
    {
        self.metrics.count_observation();
        let ghost old_view = old(self)@;
        let ghost old_providers = self.providers@;
        let found = self.find_provider(&obs.provider);
        match found {
            None => {
                proof {
                    assert(self@.providers =~= old_view.providers);
                    assert(self@.capabilities =~= old_view.capabilities);
                }
                Err(Error::UnknownProvider(obs.provider.clone()))
            },
            Some(i) => {
                proof {
                    assert(self@.providers[i as int] == old_view.providers[i as int]);
                }
                self.providers[i].apply_usage(&obs.usage, now);
                let elapsed = self.providers[i].health.since_last_observation(now);
                let trigger = self.cooldown_trigger_count;
                let excess = match obs.outcome.status {
                    StatusClass::Success | StatusClass::ClientError => {
                        self.providers[i].health.record_success(now);
                        None
                    },
                    _ => self.providers[i].health.record_failure(now, trigger),
                };
                let total = self.providers[i].health.total_observations();
                let cooldown_seconds = self.providers[i].config.cooldown_seconds;
                proof {
                    let q = old_view.providers[i as int].observed(obs.usage, obs.outcome.status, now.0);
                    assert forall|k: int| 0 <= k < old_providers.len() && k != i implies
                        #[trigger] self@.providers[k] == old_view.providers[k] by {
                        assert(self.providers@[k] == old_providers[k]);
                    }
                    assert(self@.providers[i as int] == q);
                    assert(self@.providers =~= old_view.providers.update(i as int, q));
                    assert(self@.capabilities =~= old_view.capabilities);
                }
                Ok(ObserveStep { elapsed_nanos: elapsed, total_observations: total, failure_excess: excess, cooldown_seconds })
            },
        }
    }

    /// Starts a cooldown of `secs` seconds (capped at the longest cooldown) for a
    /// registered provider at `now`, and counts it when it puts the provider into
    /// cooldown from outside one. A cooldown is due only once the provider's failure
    /// streak has reached the trigger count: before that, nothing changes.
    pub fn apply_cooldown(&mut self, provider: &String, now: Timestamp, secs: u64)
        requires
            old(self).wf(),
            old(self)@.has_provider(provider@),
            old(self)@.providers[old(self)@.index_of(provider@)->Some_0].health.consecutive_failures
                >= old(self)@.cooldown_trigger_count ==> min_u64(
                secs,
                old(self)@.max_cooldown_seconds,
            ) * NANOS_PER_SEC <= u64::MAX,
        ensures
            final(self).wf(),
            final(self)@.capabilities == old(self)@.capabilities,
            final(self)@.cooldown_trigger_count == old(self)@.cooldown_trigger_count,
            final(self)@.max_cooldown_seconds == old(self)@.max_cooldown_seconds,
            ({
                let i = old(self)@.index_of(provider@)->Some_0;
                let p = old(self)@.providers[i];
                let h = p.health.cooling(now.0, secs, old(self)@.max_cooldown_seconds);
                if p.health.consecutive_failures >= old(self)@.cooldown_trigger_count {
                    &&& final(self)@.providers == old(self)@.providers.update(
                        i,
                        ProviderView { health: h, ..p },
                    )
                    &&& final(self)@.metrics == if !p.health.in_cooldown(now.0) && h.in_cooldown(
                        now.0,
                    ) {
                        MetricsView {
                            cooldowns_triggered: crate::arith::wrapping_add_u64(
                                old(self)@.metrics.cooldowns_triggered,
                                1,
                            ),
                            ..old(self)@.metrics
                        }
                    } else {
                        old(self)@.metrics
                    }
                } else {
                    &&& final(self)@.providers == old(self)@.providers
                    &&& final(self)@.metrics == old(self)@.metrics
                }
            }),
            old(self)@.call_effect(CoreCall::Cooldown { provider: provider@, now: now.0 }, final(self)@),
    {
        let ghost old_view = self@;
        let ghost old_providers = self.providers@;
        let i = match self.find_provider(provider) {
            Some(i) => i,
            None => {
                proof {
                    assert(false);
                }
                return;
            },
        };
        if self.providers[i].health.consecutive_failures() < self.cooldown_trigger_count {
            proof {
                assert(self@.providers[i as int] == self.providers@[i as int]@);
                assert(self@.providers =~= old_view.providers);
                assert(self@.capabilities =~= old_view.capabilities);
            }
            return;
        }
        let max = self.max_cooldown_seconds;
        let was = self.providers[i].health.is_in_cooldown(now);
        self.providers[i].health.start_cooldown(now, secs, max);
        let is = self.providers[i].health.is_in_cooldown(now);
        if !was && is {
            self.metrics.count_cooldown();
        }
        proof {
            let p = old_view.providers[i as int];
            let h = p.health.cooling(now.0, secs, max);
            assert forall|k: int| 0 <= k < old_providers.len() && k != i implies
                #[trigger] self@.providers[k] == old_view.providers[k] by {
                assert(self.providers@[k] == old_providers[k]);
            }
            assert(self@.providers[i as int] == ProviderView { health: h, ..p });
            assert(self@.providers =~= old_view.providers.update(i as int, ProviderView { health: h, ..p }));
            assert(self@.capabilities =~= old_view.capabilities);
        }
    }

    /// Looks up a capability and lists its registered providers for selection at `now`.
    ///
    /// The select counter always grows. An unknown capability, or one without
    /// providers, is an error; the latter finds no available provider and is counted
    /// as such. Otherwise the result lists, in the capability's order,
    /// each of its providers that is registered, with its priority for the capability,
    /// the highest priority among all the capability's providers, and whether it is in
    /// cooldown at `now`.
    pub fn select_candidates(&mut self, capability: &str, now: Timestamp) -> (r: Result<Vec<Candidate>, Error>)
        requires
            old(self).wf(),
        ensures
            old(self)@.call_effect(CoreCall::Select { capability: capability@ }, final(self)@),
            final(self).wf(),
            final(self)@.providers == old(self)@.providers,
            final(self)@.capabilities == old(self)@.capabilities,
            final(self)@.cooldown_trigger_count == old(self)@.cooldown_trigger_count,
            final(self)@.max_cooldown_seconds == old(self)@.max_cooldown_seconds,
            final(self)@.metrics == (MetricsView {
                selects: crate::arith::wrapping_add_u64(old(self)@.metrics.selects, 1),
                no_provider_available: if old(self)@.lists_no_provider(capability@) {
                    crate::arith::wrapping_add_u64(old(self)@.metrics.no_provider_available, 1)
                } else {
                    old(self)@.metrics.no_provider_available
                },
                ..old(self)@.metrics
            }),
            match old(self)@.capability_index(capability@) {
                None => r matches Err(Error::UnknownCapability(name)) && name@ == capability@,
                Some(k) => {
                    let cps = old(self)@.capabilities[k].providers;
                    if cps.len() == 0 {
                        r matches Err(Error::NoAvailableProviders(name)) && name@ == capability@
                    } else {
                        r matches Ok(v) && candidates_view(v@) == old(self)@.candidates(
                            cps,
                            max_priority(cps),
                            now.0,
                        )
                    }
                },
            },
    {
        let ghost old_view = self@;
        self.metrics.count_select();
        proof {
            assert(self@.providers =~= old_view.providers);
            assert(self@.capabilities =~= old_view.capabilities);
        }
        let name = capability.to_owned();
        let found = self.find_capability(&name);
        let k = match found {
            None => {
                return Err(Error::UnknownCapability(name));
            },
            Some(k) => k,
        };
        let ghost cps = self@.capabilities[k as int].providers;
        let n = self.capabilities[k].providers.len();
        if n == 0 {
            self.metrics.count_no_provider();
            proof {
                assert(self@.providers =~= old_view.providers);
                assert(self@.capabilities =~= old_view.capabilities);
            }
            return Err(Error::NoAvailableProviders(name));
        }
        let mut max_p: u16 = 0;
        for j in 0..n
            invariant
                n == cps.len(),
                cps == self@.capabilities[k as int].providers,
                k < self@.capabilities.len(),
                max_p == max_priority(cps.take(j as int)),
        {
            let priority = self.capabilities[k].providers[j].priority;
            proof {
                assert(cps.take(j + 1).drop_last() =~= cps.take(j as int));
                assert(cps[j as int].1 == priority);
            }
            if priority > max_p {
                max_p = priority;
            }
        }
        proof {
            assert(cps.take(n as int) =~= cps);
        }
        let mut out: Vec<Candidate> = Vec::new();
        for j in 0..n
            invariant
                n == cps.len(),
                self.wf(),
                cps == self@.capabilities[k as int].providers,
                k < self@.capabilities.len(),
                max_p == max_priority(cps),
                self@.providers == old_view.providers,
                candidates_view(out@) == old_view.candidates(cps.take(j as int), max_p, now.0),
        {
            let entry = &self.capabilities[k].providers[j];
            let found_provider = self.find_provider(&entry.provider);
            let ghost before = out@;
            proof {
                assert(self@.index_of(entry.provider@) == old_view.index_of(entry.provider@));
                assert(cps.take(j + 1).drop_last() =~= cps.take(j as int));
                assert(cps.take(j + 1).last() == cps[j as int]);
                assert(cps[j as int] == (entry.provider@, entry.priority));
            }
            match found_provider {
                Some(idx) => {
                    let in_cooldown = self.providers[idx].health.is_in_cooldown(now);
                    out.push(
                        Candidate {
                            provider: entry.provider.clone(),
                            priority: entry.priority,
                            max_priority: max_p,
                            in_cooldown,
                        },
                    );
                    proof {
                        assert(self@.providers[idx as int] == self.providers@[idx as int]@);
                        assert(candidates_view(out@) =~= candidates_view(before).push(out@.last()@));
                    }
                },
                None => {},
            }
        }
        proof {
            assert(cps.take(n as int) =~= cps);
        }
        Ok(out)
    }

    /// The candidates that may be selected at `now`: those whose provider is registered
    /// and not in cooldown, in order. A provider in cooldown is never among them.
    pub fn available_candidates(&self, candidates: &Vec<Candidate>, now: Timestamp) -> (r: Vec<
        Candidate,
    >)
        requires
            self.wf(),
        ensures
            candidates_view(r@) == self@.available(candidates_view(candidates@), now.0),
            forall|k: int|
                0 <= k < r.len() ==> {
                    let name = #[trigger] r@[k].provider@;
                    &&& self@.has_provider(name)
                    &&& !self@.providers[self@.index_of(name)->0].health.in_cooldown(now.0)
                },
    {
        let ghost cs = candidates_view(candidates@);
        let n = candidates.len();
        let mut out: Vec<Candidate> = Vec::new();
        for j in 0..n
            invariant
                n == candidates@.len(),
                cs == candidates_view(candidates@),
                self.wf(),
                candidates_view(out@) == self@.available(cs.take(j as int), now.0),
                forall|k: int|
                    0 <= k < out.len() ==> {
                        let name = #[trigger] out@[k].provider@;
                        &&& self@.has_provider(name)
                        &&& !self@.providers[self@.index_of(name)->0].health.in_cooldown(now.0)
                    },
        {
            let c = &candidates[j];
            let ghost before = out@;
            proof {
                assert(cs.take(j + 1).drop_last() =~= cs.take(j as int));
                assert(cs.take(j + 1).last() == c@);
            }
            match self.find_provider(&c.provider) {
                Some(idx) => {
                    proof {
                        assert(self@.providers[idx as int] == self.providers@[idx as int]@);
                    }
                    if !self.providers[idx].health.is_in_cooldown(now) {
                        out.push(
                            Candidate {
                                provider: c.provider.clone(),
                                priority: c.priority,
                                max_priority: c.max_priority,
                                in_cooldown: c.in_cooldown,
                            },
                        );
                        proof {
                            assert(out@.last()@ == c@);
                            assert(candidates_view(out@) =~= candidates_view(before).push(c@));
                            assert forall|k: int| 0 <= k < out.len() implies {
                                let name = #[trigger] out@[k].provider@;
                                &&& self@.has_provider(name)
                                &&& !self@.providers[self@.index_of(name)->0].health.in_cooldown(
                                    now.0,
                                )
                            } by {
                                if k < before.len() {
                                    assert(out@[k] == before[k]);
                                }
                            }
                        }
                    }
                },
                None => {},
            }
        }
        proof {
            assert(cs.take(n as int) =~= cs);
        }
        out
    }

    /// Samples every tracker of a registered provider at `now`, in order; `None` for
    /// an unregistered provider, which changes nothing.
    pub fn quota_samples(&mut self, provider: &str, now: Timestamp) -> (r: Option<Vec<QuotaSample>>)
        requires
            old(self).wf(),
        ensures
            old(self)@.call_effect(CoreCall::Other, final(self)@),
            final(self).wf(),
            final(self)@.capabilities == old(self)@.capabilities,
            final(self)@.metrics == old(self)@.metrics,
            final(self)@.cooldown_trigger_count == old(self)@.cooldown_trigger_count,
            final(self)@.max_cooldown_seconds == old(self)@.max_cooldown_seconds,
            match old(self)@.index_of(provider@) {
                None => r is None && final(self)@.providers == old(self)@.providers,
                Some(i) => {
                    let p = old(self)@.providers[i];
                    &&& final(self)@.providers == old(self)@.providers.update(
                        i,
                        ProviderView { trackers: trackers_queried(p.trackers, now.0), ..p },
                    )
                    &&& r matches Some(v) && v@ == Seq::new(
                        p.trackers.len(),
                        |j: int| sample_of(p.trackers[j].1, now.0),
                    )
                },
            },
    {
        let name = provider.to_owned();
        let ghost old_view = self@;
        let ghost old_providers = self.providers@;
        let i = match self.find_provider(&name) {
            None => {
                proof {
                    assert(self@.providers =~= old_view.providers);
                    assert(self@.capabilities =~= old_view.capabilities);
                }
                return None;
            },
            Some(i) => i,
        };
        let ghost orig = old_view.providers[i as int].trackers;
        proof {
            assert(self@.providers[i as int] == self.providers@[i as int]@);
        }
        let mut out: Vec<QuotaSample> = Vec::new();
        let n = self.providers[i].quota_trackers.len();
        for j in 0..n
            invariant
                n == orig.len(),
                i < self.providers@.len(),
                self.providers@.len() == old_providers.len(),
                n == self.providers@[i as int].quota_trackers@.len(),
                forall|k: int| 0 <= k < old_providers.len() && k != i ==> #[trigger] self.providers@[k] == old_providers[k],
                self.providers@[i as int]@.config == old_view.providers[i as int].config,
                self.providers@[i as int]@.health == old_view.providers[i as int].health,
                self.providers@[i as int]@.extra == old_view.providers[i as int].extra,
                forall|k: int|
                    0 <= k < n ==> {
                        let t = #[trigger] orig[k].1;
                        &&& t.wf()
                        &&& (t is Bucket || t is Concurrency)
                    },
                forall|k: int|
                    0 <= k < n ==> #[trigger] self.providers@[i as int]@.trackers[k] == if k < j {
                        trackers_queried(orig, now.0)[k]
                    } else {
                        orig[k]
                    },
                out@ == Seq::new(j as nat, |k: int| sample_of(orig[k].1, now.0)),
                self.metrics@ == old_view.metrics,
                self.capabilities@ == old(self).capabilities@,
                self.cooldown_trigger_count == old_view.cooldown_trigger_count,
                self.max_cooldown_seconds == old_view.max_cooldown_seconds,
        {
            let ghost before = self.providers@[i as int].quota_trackers@;
            let ghost before_tv = self.providers@[i as int]@.trackers;
            proof {
                assert(self.providers@[i as int]@.trackers[j as int] == (before[j as int].0, before[j as int].1@));
                assert(before[j as int].1@ == orig[j as int].1);
                assert(before[j as int].0 == orig[j as int].0);
            }
            let sample = self.providers[i].quota_trackers[j].1.sample(now);
            out.push(sample);
            proof {
                let after = self.providers@[i as int].quota_trackers@;
                assert forall|k: int| 0 <= k < n && k != j implies #[trigger] after[k] == before[k] by {}
                assert(after[j as int].0 == orig[j as int].0);
                assert(after[j as int].1@ == orig[j as int].1.queried(now.0));
                assert(trackers_queried(orig, now.0)[j as int] == (orig[j as int].0, orig[j as int].1.queried(now.0)));
                assert forall|k: int| 0 <= k < n implies #[trigger] self.providers@[i as int]@.trackers[k] == if k < j + 1 {
                    trackers_queried(orig, now.0)[k]
                } else {
                    orig[k]
                } by {
                    assert(self.providers@[i as int]@.trackers[k] == (after[k].0, after[k].1@));
                    if k != j {
                        assert(after[k] == before[k]);
                        assert(before_tv[k] == (before[k].0, before[k].1@));
                    }
                }
                assert(out@ =~= Seq::new((j + 1) as nat, |k: int| sample_of(orig[k].1, now.0)));
            }
        }
        proof {
            let p = old_view.providers[i as int];
            let q = ProviderView { trackers: trackers_queried(p.trackers, now.0), ..p };
            assert(self.providers@[i as int]@.trackers =~= trackers_queried(orig, now.0));
            assert forall|k: int| 0 <= k < old_providers.len() && k != i implies
                #[trigger] self@.providers[k] == old_view.providers[k] by {
                assert(self.providers@[k] == old_providers[k]);
            }
            assert(self@.providers[i as int] == q);
            assert(self@.providers =~= old_view.providers.update(i as int, q));
            assert(self@.capabilities =~= old_view.capabilities);
            assert forall|a: int, b: int|
                0 <= a < self@.providers.len() && 0 <= b < self@.providers[a].trackers.len() implies {
                    let t = #[trigger] self@.providers[a].trackers[b].1;
                    &&& t.wf()
                    &&& (t is Bucket || t is Concurrency)
                } by {
                if a == i {
                    assert(self@.providers[a].trackers[b] == trackers_queried(orig, now.0)[b]);
                }
            }
        }
        Some(out)
    }

    /// Counts a `select` that found no available provider.
    pub fn record_no_provider_available(&mut self)
        requires
            old(self).wf(),
        ensures
            old(self)@.call_effect(CoreCall::NoProvider, final(self)@),
            final(self).wf(),
            final(self)@ == (CoreView {
                metrics: MetricsView {
                    no_provider_available: crate::arith::wrapping_add_u64(
                        old(self)@.metrics.no_provider_available,
                        1,
                    ),
                    ..old(self)@.metrics
                },
                ..old(self)@
            }),
    {
        let ghost old_view = self@;
        self.metrics.count_no_provider();
        proof {
            assert(self@.providers =~= old_view.providers);
            assert(self@.capabilities =~= old_view.capabilities);
        }
    }

    /// The engine's counters.
    pub fn metrics(&self) -> (r: &Metrics)
        ensures
            r@ == self@.metrics,
    {
        &self.metrics
    }

    /// Whether a registered provider is in cooldown at `now`; `None` if unregistered.
    pub fn provider_in_cooldown(&self, provider: &str, now: Timestamp) -> (r: Option<bool>)
        requires
            self.wf(),
        ensures
            r == match self@.index_of(provider@) {
                Some(i) => Some(self@.providers[i].health.in_cooldown(now.0)),
                None => None::<bool>,
            },
    {
        let name = provider.to_owned();
        match self.find_provider(&name) {
            Some(i) => {
                proof {
                    assert(self@.providers[i as int] == self.providers@[i as int]@);
                }
                Some(self.providers[i].health.is_in_cooldown(now))
            },
            None => None,
        }
    }

    /// The health counters of a registered provider; `None` if unregistered.
    pub fn provider_health_state(&self, provider: &str) -> (r: Option<&HealthState>)
        requires
            self.wf(),
        ensures
            match self@.index_of(provider@) {
                Some(i) => r matches Some(h) && h@ == self@.providers[i].health,
                None => r is None,
            },
    {
        let name = provider.to_owned();
        match self.find_provider(&name) {
            Some(i) => {
                proof {
                    assert(self@.providers[i as int] == self.providers@[i as int]@);
                }
                Some(&self.providers[i].health)
            },
            None => None,
        }
    }

    /// The caller's own state for a registered provider; `None` if unregistered.
    pub fn provider_extra(&self, provider: &str) -> (r: Option<&H>)
        requires
            self.wf(),
        ensures
            match self@.index_of(provider@) {
                Some(i) => r matches Some(h) && *h == self@.providers[i].extra,
                None => r is None,
            },
    {
        let name = provider.to_owned();
        match self.find_provider(&name) {
            Some(i) => {
                proof {
                    assert(self@.providers[i as int] == self.providers@[i as int]@);
                }
                Some(&self.providers[i].extra)
            },
            None => None,
        }
    }

    /// Replaces the caller's own state for a registered provider and returns `true`;
    /// returns `false` and changes nothing for an unregistered one.
    pub fn set_provider_extra(&mut self, provider: &str, extra: H) -> (r: bool)
        requires
            old(self).wf(),
        ensures
            old(self)@.call_effect(CoreCall::Other, final(self)@),
            final(self).wf(),
            final(self)@.capabilities == old(self)@.capabilities,
            final(self)@.metrics == old(self)@.metrics,
            final(self)@.cooldown_trigger_count == old(self)@.cooldown_trigger_count,
            final(self)@.max_cooldown_seconds == old(self)@.max_cooldown_seconds,
            match old(self)@.index_of(provider@) {
                Some(i) => r && final(self)@.providers == old(self)@.providers.update(
                    i,
                    ProviderView { extra, ..old(self)@.providers[i] },
                ),
                None => !r && final(self)@.providers == old(self)@.providers,
            },
    {
        let name = provider.to_owned();
        let ghost old_view = self@;
        let ghost old_providers = self.providers@;
        match self.find_provider(&name) {
            Some(i) => {
                self.providers[i].extra = extra;
                proof {
                    let q = ProviderView { extra, ..old_view.providers[i as int] };
                    assert forall|k: int| 0 <= k < old_providers.len() && k != i implies
                        #[trigger] self@.providers[k] == old_view.providers[k] by {
                        assert(self.providers@[k] == old_providers[k]);
                    }
                    assert(self@.providers[i as int] == q);
                    assert(self@.providers =~= old_view.providers.update(i as int, q));
                    assert(self@.capabilities =~= old_view.capabilities);
                }
                true
            },
            None => {
                proof {
                    assert(self@.providers =~= old_view.providers);
                    assert(self@.capabilities =~= old_view.capabilities);
                }
                false
            },
        }
    }

    /// The remaining quota of a registered provider in a dimension at `now`: that of
    /// its first tracker of the dimension, which brings itself up to date. `None`, and
    /// no change, for an unregistered provider or one without such a quota.
    pub fn provider_quota_remaining(&mut self, provider: &str, dimension: Dimension, now: Timestamp) -> (r: Option<u64>)
        requires
            old(self).wf(),
        ensures
            old(self)@.call_effect(CoreCall::Other, final(self)@),
            final(self).wf(),
            final(self)@.capabilities == old(self)@.capabilities,
            final(self)@.metrics == old(self)@.metrics,
            final(self)@.cooldown_trigger_count == old(self)@.cooldown_trigger_count,
            final(self)@.max_cooldown_seconds == old(self)@.max_cooldown_seconds,
            match old(self)@.index_of(provider@) {
                None => r is None && final(self)@.providers == old(self)@.providers,
                Some(i) => {
                    let p = old(self)@.providers[i];
                    match first_with_dimension(p.trackers, dimension) {
                        None => r is None && final(self)@.providers == old(self)@.providers,
                        Some(j) => {
                            &&& r == Some(p.trackers[j].1.remaining(now.0))
                            &&& p.trackers[j].1.remaining(now.0) <= p.trackers[j].0.limit
                            &&& final(self)@.providers == old(self)@.providers.update(
                                i,
                                ProviderView {
                                    trackers: p.trackers.update(
                                        j,
                                        (p.trackers[j].0, p.trackers[j].1.queried(now.0)),
                                    ),
                                    ..p
                                },
                            )
                        },
                    }
                },
            },
    {
        let name = provider.to_owned();
        let ghost old_view = self@;
        let ghost old_providers = self.providers@;
        let i = match self.find_provider(&name) {
            None => {
                proof {
                    assert(self@.providers =~= old_view.providers);
                    assert(self@.capabilities =~= old_view.capabilities);
                }
                return None;
            },
            Some(i) => i,
        };
        let ghost orig = old_view.providers[i as int].trackers;
        proof {
            assert(self@.providers[i as int] == self.providers@[i as int]@);
        }
        let n = self.providers[i].quota_trackers.len();
        for j in 0..n
            invariant
                n == orig.len(),
                i < self.providers@.len(),
                self.providers@ == old_providers,
                self@ == old_view,
                old_view == old(self)@,
                old_view.wf(),
                old_view.index_of(provider@) == Some(i as int),
                orig == old_view.providers[i as int].trackers,
                n == self.providers@[i as int].quota_trackers@.len(),
                first_with_dimension(orig.take(j as int), dimension) is None,
        {
            let ghost before = self.providers@[i as int].quota_trackers@;
            proof {
                assert(orig[j as int] == (before[j as int].0, before[j as int].1@));
                assert(orig.take(j + 1).drop_last() =~= orig.take(j as int));
            }
            if self.providers[i].quota_trackers[j].0.dimension == dimension {
                proof {
                    assert(first_with_dimension(orig.take(j + 1), dimension) == Some(j as int));
                    lemma_first_with_dimension_prefix(orig, dimension, j as int);
                    let t = old_view.providers[i as int].trackers[j as int].1;
                    assert(t.wf());
                    assert(t is Bucket || t is Concurrency);
                }
                let remaining = self.providers[i].quota_trackers[j].1.remaining(now);
                proof {
                    let p = old_view.providers[i as int];
                    let q = ProviderView {
                        trackers: p.trackers.update(
                            j as int,
                            (p.trackers[j as int].0, p.trackers[j as int].1.queried(now.0)),
                        ),
                        ..p
                    };
                    let after = self.providers@[i as int].quota_trackers@;
                    assert forall|k: int| 0 <= k < n && k != j implies #[trigger] after[k]
                        == before[k] by {}
                    assert(self.providers@[i as int]@.trackers =~= q.trackers) by {
                        assert forall|k: int| 0 <= k < n implies #[trigger] self.providers@[i as int]@.trackers[k]
                            == q.trackers[k] by {
                            if k != j {
                                assert(after[k] == before[k]);
                                assert(orig[k] == (before[k].0, before[k].1@));
                            }
                        }
                    }
                    assert forall|k: int| 0 <= k < old_providers.len() && k != i implies
                        #[trigger] self@.providers[k] == old_view.providers[k] by {
                        assert(self.providers@[k] == old_providers[k]);
                    }
                    assert(self@.providers[i as int] == q);
                    assert(self@.providers =~= old_view.providers.update(i as int, q));
                    assert(self@.capabilities =~= old_view.capabilities);
                    assert forall|a: int, b: int|
                        0 <= a < self@.providers.len() && 0 <= b < self@.providers[a].trackers.len() implies {
                            let t = #[trigger] self@.providers[a].trackers[b].1;
                            &&& t.wf()
                            &&& (t is Bucket || t is Concurrency)
                        } by {
                        if a == i {
                            if b != j {
                                assert(self@.providers[a].trackers[b] == old_view.providers[a].trackers[b]);
                            } else {
                                let t = old_view.providers[i as int].trackers[j as int].1;
                                assert(t.wf());
                                assert(t is Bucket || t is Concurrency);
                                assert(self@.providers[a].trackers[b].1 == t.queried(now.0));
                            }
                        } else {
                            assert(self@.providers[a] == old_view.providers[a]);
                        }
                    }
                }
                return Some(remaining);
            }
        }
        proof {
            assert(orig.take(n as int) =~= orig);
        }
        None
    }

    /// Whether recording a usage against the named provider stays within 64-bit
    /// arithmetic (see `CoreView::usage_fits`).
    pub fn accepts_usage(&self, provider: &str, usage: &Usage) -> (r: bool)
        requires
            self.wf(),
        ensures
            r == self@.usage_fits(provider@, *usage),
    {
        let name = provider.to_owned();
        let i = match self.find_provider(&name) {
            None => return true,
            Some(i) => i,
        };
        let ghost ts = self@.providers[i as int].trackers;
        proof {
            assert(self@.providers[i as int] == self.providers@[i as int]@);
        }
        let n = self.providers[i].quota_trackers.len();
        for j in 0..n
            invariant
                n == ts.len(),
                i < self.providers@.len(),
                ts == self.providers@[i as int]@.trackers,
                ts == self@.providers[i as int].trackers,
                self.wf(),
                self@.index_of(provider@) == Some(i as int),
                n == self.providers@[i as int].quota_trackers@.len(),
                forall|k: int|
                    0 <= k < j ==> {
                        let t = #[trigger] ts[k];
                        t.1.can_record(usage_amount_spec(t.0.dimension, *usage), 0)
                    },
        {
            let entry = &self.providers[i].quota_trackers[j];
            let amount = usage_amount(entry.0.dimension, usage);
            proof {
                assert(ts[j as int] == (entry.0, entry.1@));
                let t = self@.providers[i as int].trackers[j as int].1;
                assert(t.wf());
                assert(t is Bucket || t is Concurrency);
            }
            match &entry.1 {
                QuotaTracker::Bucket(_) => {
                    if amount > u64::MAX / crate::quota::PRECISION {
                        proof {
                            assert(amount * crate::quota::PRECISION > u64::MAX) by (nonlinear_arith)
                                requires
                                    amount > u64::MAX / crate::quota::PRECISION,
                                    crate::quota::PRECISION > 0,
                            ;
                            let t = self@.providers[i as int].trackers[j as int];
                            assert(!t.1.can_record(usage_amount_spec(t.0.dimension, *usage), 0));
                        }
                        return false;
                    }
                    proof {
                        assert(amount * crate::quota::PRECISION <= u64::MAX) by (nonlinear_arith)
                            requires
                                amount <= u64::MAX / crate::quota::PRECISION,
                                crate::quota::PRECISION > 0,
                        ;
                    }
                },
                QuotaTracker::Sliding(_) => {
                    proof {
                        assert(false);
                    }
                    return false;
                },
                _ => {},
            }
        }
        true
    }

    /// The position of the provider of this name, if registered.
    fn find_provider(&self, name: &String) -> (r: Option<usize>)
        requires
            self.wf(),
        ensures
            r matches Some(i) ==> {
                &&& i < self@.providers.len()
                &&& self@.index_of(name@) == Some(i as int)
                &&& self@.providers[i as int].name() == name@
            },
            r is None ==> self@.index_of(name@) is None,
    {
        let n = self.providers.len();
        for i in 0..n
            invariant
                n == self.providers@.len(),
                self.wf(),
                forall|k: int| 0 <= k < i ==> #[trigger] self@.providers[k].name() != name@,
        {
            if self.providers[i].config.name == *name {
                proof {
                    assert(self@.providers[i as int] == self.providers@[i as int]@);
                    lemma_index_of_unique(self@, i as int);
                }
                return Some(i);
            }
            assert(self@.providers[i as int] == self.providers@[i as int]@);
        }
        assert(!self@.has_provider(name@));
        None
    }

    /// The position of the capability of this name, if registered.
    fn find_capability(&self, name: &String) -> (r: Option<usize>)
        requires
            self.wf(),
        ensures
            r matches Some(i) ==> {
                &&& i < self@.capabilities.len()
                &&& self@.capability_index(name@) == Some(i as int)
                &&& self@.capabilities[i as int].name == name@
            },
            r is None ==> self@.capability_index(name@) is None,
    {
        let n = self.capabilities.len();
        for i in 0..n
            invariant
                n == self.capabilities@.len(),
                self.wf(),
                forall|k: int| 0 <= k < i ==> #[trigger] self@.capabilities[k].name != name@,
        {
            if self.capabilities[i].name == *name {
                proof {
                    lemma_capability_index_unique(self@, i as int);
                }
                return Some(i);
            }
        }
        assert(!self@.has_capability(name@));
        None
    }
}

/// Registering a provider makes it findable under its name, with its configuration
/// and fresh trackers for its quotas; a provider that was registered already keeps
/// its health counters, cooldown and caller state.
pub proof fn lemma_upsert_registers<H>(v: CoreView<H>, config: ProviderConfig, now: u64, fresh: H)
    requires
        v.wf(),
    ensures
        ({
            let w = v.with_provider(config, now, fresh);
            &&& w.index_of(config.name@) matches Some(i) && {
                &&& w.providers[i].config == config
                &&& w.providers[i].trackers == initial_trackers(config.quotas@, now)
                &&& match v.index_of(config.name@) {
                    Some(k) => w.providers[i].health == v.providers[k].health
                        && w.providers[i].extra == v.providers[k].extra,
                    None => w.providers[i].health == HealthView::fresh(now)
                        && w.providers[i].extra == fresh,
                }
            }
            &&& forall|n: Seq<char>| n != config.name@ ==> w.has_provider(n) == v.has_provider(n)
        }),
{
    let w = v.with_provider(config, now, fresh);
    let name = config.name@;
    let target: int = match v.index_of(name) {
        Some(k) => k,
        None => v.providers.len() as int,
    };
    if let Some(k) = v.index_of(name) {
        assert(v.has_provider(name));
        assert(v.providers[k].name() == name);
    } else {
        assert forall|k: int| 0 <= k < v.providers.len() implies #[trigger] v.providers[k].name()
            != name by {
            if v.providers[k].name() == name {
                assert(v.has_provider(name));
            }
        }
    }
    assert(w.providers[target].name() == name);
    assert(w.has_provider(name));
    let j = choose|j: int| 0 <= j < w.providers.len() && #[trigger] w.providers[j].name() == name;
    if j != target {
        assert(w.providers[j] == v.providers[j]);
        if let Some(k) = v.index_of(name) {
            if j < k {
                assert(v.providers[j].name() != v.providers[k].name());
            } else {
                assert(v.providers[k].name() != v.providers[j].name());
            }
        }
    }
    assert forall|n: Seq<char>| n != name implies w.has_provider(n) == v.has_provider(n) by {
        if w.has_provider(n) {
            let a = choose|a: int| 0 <= a < w.providers.len() && #[trigger] w.providers[a].name() == n;
            assert(a != target);
            assert(w.providers[a] == v.providers[a]);
        }
        if v.has_provider(n) {
            let a = choose|a: int| 0 <= a < v.providers.len() && #[trigger] v.providers[a].name() == n;
            assert(a != target);
            assert(w.providers[a] == v.providers[a]);
        }
    }
}

/// Whether `views` is the registry's course through `calls`: each call takes the view
/// before it to the view after it.
pub open spec fn is_course<H>(views: Seq<CoreView<H>>, calls: Seq<CoreCall>) -> bool {
    &&& views.len() == calls.len() + 1
    &&& forall|k: int| 0 <= k < calls.len() ==> #[trigger] views[k].call_effect(calls[k], views[k + 1])
}

/// The number of steps of a course of calls that meet `counted`, which sees the view
/// before the call, the call, and the view after it.
pub open spec fn count_steps<H>(
    views: Seq<CoreView<H>>,
    calls: Seq<CoreCall>,
    counted: spec_fn(CoreView<H>, CoreCall, CoreView<H>) -> bool,
) -> nat
    decreases calls.len(),
{
    if calls.len() == 0 {
        0
    } else {
        let n = calls.len() - 1;
        count_steps(views, calls.drop_last(), counted) + if counted(views[n], calls[n], views[n + 1]) {
            1nat
        } else {
            0nat
        }
    }
}

/// Two to the 64th: counters wrap modulo this.
pub open spec fn counter_modulus() -> int {
    0x1_0000_0000_0000_0000
}

/// One more count on a wrapping counter that stands at `start + n` modulo 2^64.
proof fn lemma_wrapping_count(start: u64, n: nat)
    ensures
        wrapping_add_u64(((start + n) % counter_modulus()) as u64, 1) == (start + n + 1)
            % counter_modulus(),
{
    let m = counter_modulus();
    let x = (start + n) % m;
    vstd::arithmetic::div_mod::lemma_add_mod_noop(start + n, 1, m);
    vstd::arithmetic::div_mod::lemma_small_mod(1, m as nat);
    if x + 1 < m {
        vstd::arithmetic::div_mod::lemma_small_mod((x + 1) as nat, m as nat);
    } else {
        vstd::arithmetic::div_mod::lemma_mod_self_0(m);
    }
}

/// Steps of a prefix of the calls are counted alike whatever views follow.
proof fn lemma_count_steps_prefix<H>(
    views: Seq<CoreView<H>>,
    calls: Seq<CoreCall>,
    counted: spec_fn(CoreView<H>, CoreCall, CoreView<H>) -> bool,
)
    requires
        views.len() >= calls.len() + 2,
    ensures
        count_steps(views.drop_last(), calls, counted) == count_steps(views, calls, counted),
    decreases calls.len(),
{
    if calls.len() > 0 {
        lemma_count_steps_prefix(views, calls.drop_last(), counted);
    }
}

/// A course of calls keeps the registry's settings: the trigger count and the longest
/// cooldown.
pub proof fn lemma_course_keeps_settings<H>(views: Seq<CoreView<H>>, calls: Seq<CoreCall>)
    requires
        is_course(views, calls),
    ensures
        forall|j: int|
            0 <= j < views.len() ==> #[trigger] views[j].cooldown_trigger_count
                == views[0].cooldown_trigger_count && views[j].max_cooldown_seconds
                == views[0].max_cooldown_seconds,
    decreases calls.len(),
{
    if calls.len() > 0 {
        let n = calls.len() - 1;
        let vs = views.drop_last();
        let cs = calls.drop_last();
        assert forall|k: int| 0 <= k < cs.len() implies #[trigger] vs[k].call_effect(cs[k], vs[k + 1]) by {
            assert(views[k].call_effect(calls[k], views[k + 1]));
        }
        lemma_course_keeps_settings(vs, cs);
        assert(views[n].call_effect(calls[n], views[n + 1]));
        assert forall|j: int| 0 <= j < views.len() implies #[trigger] views[j].cooldown_trigger_count
            == views[0].cooldown_trigger_count && views[j].max_cooldown_seconds
            == views[0].max_cooldown_seconds by {
            if j < views.len() - 1 {
                assert(views[j] == vs[j]);
            } else {
                assert(vs[n].cooldown_trigger_count == vs[0].cooldown_trigger_count);
                assert(views[n] == vs[n] && views[0] == vs[0]);
            }
        }
    }
}

/// The counters count their calls: over any course of calls, the select counter
/// grows by exactly the number of selections, the observation counter by the number
/// of observations, the no-provider counter by the number of calls that found no
/// available provider, and the cooldown counter by the number of cooldowns started
/// from outside a cooldown, each modulo 2^64 as a wrapping counter does; so a counter
/// that started at zero equals its count while that stays below 2^64.
pub proof fn lemma_counters_count_calls<H>(views: Seq<CoreView<H>>, calls: Seq<CoreCall>)
    requires
        is_course(views, calls),
    ensures
        ({
            let sel = count_steps(views, calls, |a: CoreView<H>, c: CoreCall, b: CoreView<H>| c is Select);
            let obs = count_steps(views, calls, |a: CoreView<H>, c: CoreCall, b: CoreView<H>| c is Observe);
            let none = count_steps(views, calls, |a: CoreView<H>, c: CoreCall, b: CoreView<H>| a.finds_none(c));
            let started = count_steps(
                views,
                calls,
                |a: CoreView<H>, c: CoreCall, b: CoreView<H>| a.cooldown_starts(c, b),
            );
            let first = views[0].metrics;
            let last = views.last().metrics;
            &&& last.selects == (first.selects + sel) % counter_modulus()
            &&& last.observations == (first.observations + obs) % counter_modulus()
            &&& last.no_provider_available == (first.no_provider_available + none)
                % counter_modulus()
            &&& last.cooldowns_triggered == (first.cooldowns_triggered + started)
                % counter_modulus()
            &&& (first.selects == 0 && sel < counter_modulus() ==> last.selects == sel)
            &&& (first.observations == 0 && obs < counter_modulus() ==> last.observations == obs)
            &&& (first.no_provider_available == 0 && none < counter_modulus()
                ==> last.no_provider_available == none)
            &&& (first.cooldowns_triggered == 0 && started < counter_modulus()
                ==> last.cooldowns_triggered == started)
        }),
    decreases calls.len(),
{
    let m = counter_modulus();
    let sel = |a: CoreView<H>, c: CoreCall, b: CoreView<H>| c is Select;
    let obs = |a: CoreView<H>, c: CoreCall, b: CoreView<H>| c is Observe;
    let none = |a: CoreView<H>, c: CoreCall, b: CoreView<H>| a.finds_none(c);
    let started = |a: CoreView<H>, c: CoreCall, b: CoreView<H>| a.cooldown_starts(c, b);
    let s0 = views[0].metrics;
    if calls.len() == 0 {
        vstd::arithmetic::div_mod::lemma_small_mod(s0.selects as nat, m as nat);
        vstd::arithmetic::div_mod::lemma_small_mod(s0.observations as nat, m as nat);
        vstd::arithmetic::div_mod::lemma_small_mod(s0.no_provider_available as nat, m as nat);
        vstd::arithmetic::div_mod::lemma_small_mod(s0.cooldowns_triggered as nat, m as nat);
    } else {
        let n = calls.len() - 1;
        let vs = views.drop_last();
        let cs = calls.drop_last();
        assert forall|k: int| 0 <= k < cs.len() implies #[trigger] vs[k].call_effect(cs[k], vs[k + 1]) by {
            assert(views[k].call_effect(calls[k], views[k + 1]));
        }
        lemma_counters_count_calls(vs, cs);
        assert(vs.last() == views[n]);
        assert(vs[0] == views[0]);
        assert(views[n].call_effect(calls[n], views[n + 1]));
        lemma_count_steps_prefix(views, cs, sel);
        lemma_count_steps_prefix(views, cs, obs);
        lemma_count_steps_prefix(views, cs, none);
        lemma_count_steps_prefix(views, cs, started);
        lemma_wrapping_count(s0.selects, count_steps(views, cs, sel));
        lemma_wrapping_count(s0.observations, count_steps(views, cs, obs));
        lemma_wrapping_count(s0.no_provider_available, count_steps(views, cs, none));
        lemma_wrapping_count(s0.cooldowns_triggered, count_steps(views, cs, started));
    }
    let c_sel = count_steps(views, calls, sel);
    let c_obs = count_steps(views, calls, obs);
    let c_none = count_steps(views, calls, none);
    let c_started = count_steps(views, calls, started);
    if c_sel < m {
        vstd::arithmetic::div_mod::lemma_small_mod(c_sel, m as nat);
    }
    if c_obs < m {
        vstd::arithmetic::div_mod::lemma_small_mod(c_obs, m as nat);
    }
    if c_none < m {
        vstd::arithmetic::div_mod::lemma_small_mod(c_none, m as nat);
    }
    if c_started < m {
        vstd::arithmetic::div_mod::lemma_small_mod(c_started, m as nat);
    }
}

/// No cooldown without failures, and none longer than the longest cooldown: over any
/// course of calls, a provider that ends up in cooldown at a time `t`, and was not in
/// cooldown at `t` before the calls, was put there by a cooldown call for it, made when
/// its failure streak had reached the trigger count, less than the longest cooldown
/// before `t`.
pub proof fn lemma_cooldown_needs_failures<H>(
    views: Seq<CoreView<H>>,
    calls: Seq<CoreCall>,
    k: int,
    t: u64,
)
    requires
        is_course(views, calls),
        0 <= k < views.last().providers.len(),
        views.last().providers[k].health.in_cooldown(t),
        !(k < views[0].providers.len() && views[0].providers[k].health.in_cooldown(t)),
    ensures
        exists|j: int|
            0 <= j < calls.len() && k < views[j].providers.len() && #[trigger] calls[j] is Cooldown
                && calls[j]->provider == views[j].providers[k].name()
                && views[j].providers[k].health.consecutive_failures
                >= views[j].cooldown_trigger_count && t < calls[j]->now
                + views[0].max_cooldown_seconds * NANOS_PER_SEC,
    decreases calls.len(),
{
    if calls.len() == 0 {
        assert(views.last() == views[0]);
    } else {
        let n = calls.len() - 1;
        let a = views[n];
        let b = views[n + 1];
        assert(b == views.last());
        assert(a.call_effect(calls[n], b));
        if k < a.providers.len() && b.providers[k].health.cooldown_until
            != a.providers[k].health.cooldown_until {
            assert(calls[n] is Cooldown);
            lemma_course_keeps_settings(views, calls);
            assert(views[n].max_cooldown_seconds == views[0].max_cooldown_seconds);
        } else {
            if k >= a.providers.len() {
                assert(b.providers[k].health.cooldown_until is None);
                assert(false);
            }
            assert(a.providers[k].health.in_cooldown(t));
            let vs = views.drop_last();
            let cs = calls.drop_last();
            assert forall|i: int| 0 <= i < cs.len() implies #[trigger] vs[i].call_effect(cs[i], vs[i + 1]) by {
                assert(views[i].call_effect(calls[i], views[i + 1]));
            }
            assert(vs.last() == a);
            lemma_cooldown_needs_failures(vs, cs, k, t);
            let j = choose|j: int|
                0 <= j < cs.len() && k < vs[j].providers.len() && #[trigger] cs[j] is Cooldown
                    && cs[j]->provider == vs[j].providers[k].name()
                    && vs[j].providers[k].health.consecutive_failures >= vs[j].cooldown_trigger_count
                    && t < cs[j]->now + vs[0].max_cooldown_seconds * NANOS_PER_SEC;
            assert(calls[j] == cs[j] && views[j] == vs[j] && vs[0] == views[0]);
        }
    }
}

/// An observation charges each of the provider's quotas by the usage of its own
/// dimension: the requests for a request or concurrency quota, and the reported
/// tokens, bytes or cost (nothing when not reported) for the others. When the quota
/// still allows that amount, its remaining capacity falls by exactly that much; the
/// other fields of the usage do not touch it.
pub proof fn lemma_observation_charges_by_dimension<H>(
    p: ProviderView<H>,
    usage: Usage,
    status: StatusClass,
    now: u64,
    j: int,
)
    requires
        0 <= j < p.trackers.len(),
    ensures
        ({
            let (quota, before) = p.trackers[j];
            let after = p.observed(usage, status, now).trackers[j];
            let charged = match quota.dimension {
                Dimension::Requests => usage.requests,
                Dimension::Concurrency => usage.requests,
                Dimension::Tokens => match usage.tokens {
                    Some(x) => x,
                    None => 0,
                },
                Dimension::Bytes => match usage.bytes {
                    Some(x) => x,
                    None => 0,
                },
                Dimension::CostUsd => match usage.cost_micro_usd {
                    Some(x) => x,
                    None => 0,
                },
            };
            &&& after.0 == quota
            &&& (before.wf() && before.can_record(charged, now) && before.can_query(now)
                && charged <= before.remaining(now)) ==> after.1.remaining(now)
                == before.remaining(now) - charged
        }),
{
    let (quota, before) = p.trackers[j];
    let amount = usage_amount_spec(quota.dimension, usage);
    if before.wf() && before.can_record(amount, now) && before.can_query(now) && amount
        <= before.remaining(now) && amount > 0 {
        crate::quota::tracker::lemma_record_lowers_remaining(before, amount, now);
    }
}

} // verus!
