use vstd::prelude::*;

verus! {

/// Traffic pattern configuration for simulation. Each step of a simulation
/// represents 100ms, a tenth of a second.
#[derive(Debug, Clone)]
pub enum TrafficPattern {
    /// Constant rate of requests per second.
    Steady { rps: u64 },
    /// Sudden burst followed by calm.
    Bursty {
        base_rps: u64,
        burst_rps: u64,
        burst_duration_steps: u64,
        burst_interval_steps: u64,
    },
    /// Linearly increasing traffic.
    Ramp { start_rps: u64, end_rps: u64, ramp_steps: u64 },
    /// Explicit requests per step.
    Custom(Vec<u64>),
}

/// Requests per step of a ramp at `step`: the rate moves linearly from `start` to
/// `end` over `ramp` steps and stays at `end` afterwards (at once for a ramp of no
/// steps); a step carries a tenth of the rate, rounded down. The rate is computed
/// exactly, as a fraction.
pub open spec fn ramp_requests(start: u64, end: u64, ramp: u64, step: u64) -> int {
    if ramp == 0 || step >= ramp {
        (end / 10) as int
    } else if end >= start {
        (start * ramp + (end - start) * step) / (10 * ramp)
    } else {
        (start * ramp - (start - end) * step) / (10 * ramp)
    }
}

impl TrafficPattern {
    /// Whether the pattern is usable: a bursty pattern repeats over at least one step.
    pub open spec fn well_formed(&self) -> bool {
        match self {
            TrafficPattern::Bursty { burst_interval_steps, .. } => *burst_interval_steps > 0,
            _ => true,
        }
    }

    /// The requests sent at a simulation step: a tenth of the steady rate; within a
    /// burst cycle, a tenth of the burst rate for its first steps and of the base rate
    /// after; along a ramp, see `ramp_requests`; for explicit counts, the count of the
    /// step, or the last count after the list ends (zero for an empty list).
    pub open spec fn requests_at_spec(&self, step: u64) -> int {
        match self {
            TrafficPattern::Steady { rps } => (*rps / 10) as int,
            TrafficPattern::Bursty {
                base_rps,
                burst_rps,
                burst_duration_steps,
                burst_interval_steps,
            } => if step % *burst_interval_steps < *burst_duration_steps {
                (*burst_rps / 10) as int
            } else {
                (*base_rps / 10) as int
            },
            TrafficPattern::Ramp { start_rps, end_rps, ramp_steps } => ramp_requests(
                *start_rps,
                *end_rps,
                *ramp_steps,
                step,
            ),
            TrafficPattern::Custom(rates) => if step < rates@.len() {
                rates@[step as int] as int
            } else if rates@.len() > 0 {
                rates@.last() as int
            } else {
                0
            },
        }
    }

    /// The number of requests to send at the given simulation step.
    pub fn requests_at(&self, step: u64) -> (r: u64)
        requires
            self.well_formed(),
        ensures
            r == self.requests_at_spec(step),
    {
        match self {
            TrafficPattern::Steady { rps } => *rps / 10,
            TrafficPattern::Bursty {
                base_rps,
                burst_rps,
                burst_duration_steps,
                burst_interval_steps,
            } => {
                let in_cycle = step % *burst_interval_steps;
                if in_cycle < *burst_duration_steps {
                    *burst_rps / 10
                } else {
                    *base_rps / 10
                }
            },
            TrafficPattern::Ramp { start_rps, end_rps, ramp_steps } => ramp_at(
                *start_rps,
                *end_rps,
                *ramp_steps,
                step,
            ),
            TrafficPattern::Custom(rates) => {
                if step < rates.len() as u64 {
                    rates[step as usize]
                } else if rates.len() > 0 {
                    rates[rates.len() - 1]
                } else {
                    0
                }
            },
        }
    }
}

/// Requests per step of a ramp at `step` (see `ramp_requests`).
fn ramp_at(start: u64, end: u64, ramp: u64, step: u64) -> (r: u64)
    ensures
        r == ramp_requests(start, end, ramp, step),
{
    if ramp == 0 || step >= ramp {
        return end / 10;
    }
    let s = start as u128;
    let e = end as u128;
    let n = ramp as u128;
    let k = step as u128;
    let denominator = 10 * n;
    if end >= start {
        assert(s * n + (e - s) * k <= e * n) by (nonlinear_arith)
            requires
                s <= e,
                k < n,
        ;
        assert(e * n <= (u64::MAX as int) * (u64::MAX as int)) by (nonlinear_arith)
            requires
                e <= u64::MAX,
                n <= u64::MAX,
        ;
        let numerator = s * n + (e - s) * k;
        let q = numerator / denominator;
        assert(q <= e) by (nonlinear_arith)
            requires
                q == numerator / denominator,
                numerator <= e * n,
                denominator == 10 * n,
                n > 0,
        ;
        q as u64
    } else {
        assert((s - e) * k <= s * n) by (nonlinear_arith)
            requires
                e < s,
                k < n,
        ;
        assert(s * n <= (u64::MAX as int) * (u64::MAX as int)) by (nonlinear_arith)
            requires
                s <= u64::MAX,
                n <= u64::MAX,
        ;
        let numerator = s * n - (s - e) * k;
        let q = numerator / denominator;
        assert(q <= s) by (nonlinear_arith)
            requires
                q == numerator / denominator,
                numerator <= s * n,
                denominator == 10 * n,
                n > 0,
        ;
        q as u64
    }
}

/// A ramp starts at its start rate and ends at its end rate: its first step carries a
/// tenth of the start rate, and every step from `ramp_steps` on a tenth of the end
/// rate, whether the ramp rises or falls; no step in between leaves the range of the
/// two.
pub proof fn lemma_ramp_ends_at_its_end_rate(start_rps: u64, end_rps: u64, ramp_steps: u64, step: u64)
    requires
        ramp_steps > 0,
    ensures
        ({
            let p = TrafficPattern::Ramp { start_rps, end_rps, ramp_steps };
            &&& step >= ramp_steps ==> p.requests_at_spec(step) == end_rps / 10
            &&& p.requests_at_spec(0) == start_rps / 10
            &&& (start_rps <= end_rps ==> start_rps / 10 <= p.requests_at_spec(step) <= end_rps / 10)
            &&& (end_rps <= start_rps ==> end_rps / 10 <= p.requests_at_spec(step) <= start_rps / 10)
        }),
{
    let s = start_rps as int;
    let e = end_rps as int;
    let n = ramp_steps as int;
    let k = step as int;
    assert((s * n) / (10 * n) == s / 10) by {
        vstd::arithmetic::div_mod::lemma_div_denominator(s * n, n, 10);
        assert(s * n == n * s) by (nonlinear_arith);
        vstd::arithmetic::div_mod::lemma_div_multiples_vanish(s, n);
        assert(n * 10 == 10 * n);
    }
    assert((e * n) / (10 * n) == e / 10) by {
        vstd::arithmetic::div_mod::lemma_div_denominator(e * n, n, 10);
        assert(e * n == n * e) by (nonlinear_arith);
        vstd::arithmetic::div_mod::lemma_div_multiples_vanish(e, n);
        assert(n * 10 == 10 * n);
    }
    if step < ramp_steps {
        if e >= s {
            let x = s * n + (e - s) * k;
            assert(s * n <= x <= e * n) by (nonlinear_arith)
                requires
                    x == s * n + (e - s) * k,
                    s <= e,
                    0 <= k < n,
            ;
            vstd::arithmetic::div_mod::lemma_div_is_ordered(s * n, x, 10 * n);
            vstd::arithmetic::div_mod::lemma_div_is_ordered(x, e * n, 10 * n);
        } else {
            let x = s * n - (s - e) * k;
            assert(e * n <= x <= s * n) by (nonlinear_arith)
                requires
                    x == s * n - (s - e) * k,
                    e < s,
                    0 <= k < n,
            ;
            vstd::arithmetic::div_mod::lemma_div_is_ordered(e * n, x, 10 * n);
            vstd::arithmetic::div_mod::lemma_div_is_ordered(x, s * n, 10 * n);
        }
    }
}

/// A traffic generator that produces requests according to a pattern.
pub struct TrafficGenerator {
    /// The pattern followed.
    pub pattern: TrafficPattern,
    /// The next step.
    pub step: u64,
}

impl TrafficGenerator {
    /// A generator at the first step of a pattern.
    pub fn new(pattern: TrafficPattern) -> (r: Self)
        ensures
            r.pattern == pattern,
            r.step == 0,
    {
        TrafficGenerator { pattern, step: 0 }
    }

    /// The requests of the current step; moves on to the next step.
    pub fn next_batch(&mut self) -> (r: u64)
        requires
            old(self).pattern.well_formed(),
            old(self).step < u64::MAX,
        ensures
            r == old(self).pattern.requests_at_spec(old(self).step),
            final(self).pattern == old(self).pattern,
            final(self).step == old(self).step + 1,
    {
        let requests = self.pattern.requests_at(self.step);
        self.step = self.step + 1;
        requests
    }
}

impl TrafficGenerator {
    /// Whether one `next_batch` call took `before` to `after` and returned `requests`.
    pub open spec fn batch_taken(self, after: TrafficGenerator, requests: u64) -> bool {
        &&& requests == self.pattern.requests_at_spec(self.step)
        &&& after.pattern == self.pattern
        &&& after.step == self.step + 1
    }
}

/// A generator replays its pattern: after `new(p)` and any number of `next_batch`
/// calls, the calls returned the pattern's requests of steps 0, 1, 2, ... in turn,
/// and the generator stands at the step after the last of them, still with `p`.
pub proof fn lemma_generator_replays(p: TrafficPattern, gens: Seq<TrafficGenerator>, batches: Seq<u64>)
    requires
        gens.len() == batches.len() + 1,
        gens[0].pattern == p,
        gens[0].step == 0,
        forall|k: int| 0 <= k < batches.len() ==> #[trigger] gens[k].batch_taken(gens[k + 1], batches[k]),
    ensures
        forall|k: int| 0 <= k < batches.len() ==> #[trigger] batches[k] == p.requests_at_spec(k as u64),
        gens.last().pattern == p,
        gens.last().step == batches.len(),
    decreases batches.len(),
{
    if batches.len() > 0 {
        let n = batches.len() - 1;
        let g = gens.drop_last();
        let b = batches.drop_last();
        assert forall|k: int| 0 <= k < b.len() implies #[trigger] g[k].batch_taken(g[k + 1], b[k]) by {
            assert(gens[k].batch_taken(gens[k + 1], batches[k]));
        }
        lemma_generator_replays(p, g, b);
        assert(gens[n].batch_taken(gens[n + 1], batches[n]));
        assert forall|k: int| 0 <= k < batches.len() implies #[trigger] batches[k] == p.requests_at_spec(k as u64) by {
            if k < n {
                assert(b[k] == batches[k]);
            }
        }
    }
}

/// Predefined load profiles for simulation.
#[derive(Debug, Clone, Copy, PartialEq, Eq, Structural)]
pub enum LoadProfile {
    /// Stable RPS.
    Steady,
    /// Sudden spikes.
    Bursty,
    /// Providers degrade sequentially.
    CascadingFailure,
    /// Synchronized retries.
    ThunderingHerd,
    /// Sustained overload.
    QuotaExhaustion,
}

impl LoadProfile {
    /// The traffic pattern of the profile.
    pub fn to_traffic_pattern(self) -> (r: TrafficPattern)
        ensures
            r.well_formed(),
            r == match self {
                LoadProfile::Steady => TrafficPattern::Steady { rps: 100 },
                LoadProfile::Bursty => TrafficPattern::Bursty {
                    base_rps: 50,
                    burst_rps: 500,
                    burst_duration_steps: 10,
                    burst_interval_steps: 100,
                },
                LoadProfile::CascadingFailure => TrafficPattern::Ramp {
                    start_rps: 50,
                    end_rps: 300,
                    ramp_steps: 100,
                },
                LoadProfile::ThunderingHerd => TrafficPattern::Bursty {
                    base_rps: 10,
                    burst_rps: 1000,
                    burst_duration_steps: 5,
                    burst_interval_steps: 50,
                },
                LoadProfile::QuotaExhaustion => TrafficPattern::Steady { rps: 500 },
            },
    {
        match self {
            LoadProfile::Steady => TrafficPattern::Steady { rps: 100 },
            LoadProfile::Bursty => TrafficPattern::Bursty {
                base_rps: 50,
                burst_rps: 500,
                burst_duration_steps: 10,
                burst_interval_steps: 100,
            },
            LoadProfile::CascadingFailure => TrafficPattern::Ramp {
                start_rps: 50,
                end_rps: 300,
                ramp_steps: 100,
            },
            LoadProfile::ThunderingHerd => TrafficPattern::Bursty {
                base_rps: 10,
                burst_rps: 1000,
                burst_duration_steps: 5,
                burst_interval_steps: 50,
            },
            LoadProfile::QuotaExhaustion => TrafficPattern::Steady { rps: 500 },
        }
    }
}

} // verus!
