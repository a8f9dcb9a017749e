use vstd::prelude::*;

use crate::observation::StatusClass;

verus! {

/// Milliseconds of simulated time per simulation step.
pub const STEP_MS: u64 = 100;

/// The number of steps of a simulation that lasts `duration_secs` seconds.
pub fn simulation_steps(duration_secs: u64) -> (n: u64)
    requires
        duration_secs * 1000 <= u64::MAX,
    ensures
        n == duration_secs * 1000 / STEP_MS as int,
{
    duration_secs * 1000 / STEP_MS
}

/// The name a provider choice carries, if any.
pub open spec fn choice_name(choice: Option<String>) -> Option<Seq<char>> {
    match choice {
        Some(s) => Some(s@),
        None => None,
    }
}

/// The integer counts of a simulation run.
#[derive(Debug, Clone)]
pub struct SimTally {
    /// Total requests sent.
    pub total: u64,
    /// Requests for which no provider was available.
    pub false_rejects: u64,
    /// Requests that went to another provider than the request before them.
    pub switches: u64,
    /// Requests that hit an unexpected 429.
    pub unexpected_429s: u64,
    /// The provider chosen for the latest request that found one.
    pub last_provider: Option<String>,
}

impl SimTally {
    /// Each count grows by at most one per request, so none exceeds the total.
    pub open spec fn wf(&self) -> bool {
        &&& self.false_rejects <= self.total
        &&& self.switches <= self.total
        &&& self.unexpected_429s <= self.total
    }

    /// The counts before any request.
    pub fn new() -> (r: Self)
        ensures
            r.wf(),
            r.total == 0,
            r.false_rejects == 0,
            r.switches == 0,
            r.unexpected_429s == 0,
            r.last_provider is None,
    {
        SimTally { total: 0, false_rejects: 0, switches: 0, unexpected_429s: 0, last_provider: None }
    }
}

/// Counts one simulated request: `selected` is the provider the engine chose (`None`
/// when it had none available), and `status` the outcome the provider gave.
///
/// The total grows by one; a request without a provider is a false reject; a choice
/// of another provider than the latest one is a switch; a rate-limited outcome is an
/// unexpected 429.
pub fn tally_request(t: &mut SimTally, selected: Option<String>, status: Option<StatusClass>)
    requires
        old(t).wf(),
        old(t).total < u64::MAX,
    ensures
        final(t).wf(),
        final(t).total == old(t).total + 1,
        final(t).false_rejects == old(t).false_rejects + if selected is None {
            1int
        } else {
            0int
        },
        final(t).switches == old(t).switches + if choice_name(old(t).last_provider) is Some
            && choice_name(selected) is Some && choice_name(old(t).last_provider)
            != choice_name(selected) {
            1int
        } else {
            0int
        },
        choice_name(final(t).last_provider) == if selected is Some {
            choice_name(selected)
        } else {
            choice_name(old(t).last_provider)
        },
        final(t).unexpected_429s == old(t).unexpected_429s + if status == Some(
            StatusClass::RateLimited,
        ) {
            1int
        } else {
            0int
        },
{
    t.total = t.total + 1;
    match selected {
        None => {
            t.false_rejects = t.false_rejects + 1;
        },
        Some(name) => {
            let switched = match &t.last_provider {
                Some(last) => *last != name,
                None => false,
            };
            if switched {
                t.switches = t.switches + 1;
            }
            t.last_provider = Some(name);
        },
    }
    if let Some(StatusClass::RateLimited) = status {
        t.unexpected_429s = t.unexpected_429s + 1;
    }
}

} // verus!
