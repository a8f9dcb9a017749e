use vstd::prelude::*;

use crate::quota::Dimension;

verus! {

/// Classified response status for health tracking.
#[derive(Debug, Clone, Copy, PartialEq, Eq, Hash, Structural)]
pub enum StatusClass {
    /// 2xx success.
    Success,
    /// 429 rate limited.
    RateLimited,
    /// 403 forbidden / banned.
    Forbidden,
    /// 5xx server error.
    ServerError,
    /// Request timed out.
    Timeout,
    /// Other client error (4xx excluding 429/403).
    ClientError,
}

impl StatusClass {
    /// Whether the outcome counts as a success for health: a success or an ordinary
    /// client error (the provider itself did its job).
    pub open spec fn counts_as_success(self) -> bool {
        self == StatusClass::Success || self == StatusClass::ClientError
    }
}

/// Resource usage for a single interaction.
#[derive(Debug, Clone, Copy, PartialEq, Eq, Structural)]
pub struct Usage {
    /// Number of requests consumed (typically 1).
    pub requests: u64,
    /// Tokens consumed (e.g., LLM tokens).
    pub tokens: Option<u64>,
    /// Bytes transferred.
    pub bytes: Option<u64>,
    /// Cost in USD (micro-dollars for precision).
    pub cost_micro_usd: Option<u64>,
}

impl Default for Usage {
    /// No usage at all.
    fn default() -> (r: Self)
        ensures
            r == (Usage { requests: 0, tokens: None, bytes: None, cost_micro_usd: None }),
    {
        Usage { requests: 0, tokens: None, bytes: None, cost_micro_usd: None }
    }
}

/// The amount of a usage that counts against a quota of `dimension`: requests for
/// requests and concurrency, the reported amount (or zero) for the others.
pub open spec fn usage_amount_spec(dimension: Dimension, usage: Usage) -> u64 {
    match dimension {
        Dimension::Requests => usage.requests,
        Dimension::Tokens => match usage.tokens { Some(t) => t, None => 0 },
        Dimension::Bytes => match usage.bytes { Some(b) => b, None => 0 },
        Dimension::CostUsd => match usage.cost_micro_usd { Some(c) => c, None => 0 },
        Dimension::Concurrency => usage.requests,
    }
}

/// The amount of a usage that counts against a quota of `dimension`.
pub fn usage_amount(dimension: Dimension, usage: &Usage) -> (r: u64)
    ensures
        r == usage_amount_spec(dimension, *usage),
{
    match dimension {
        Dimension::Requests => usage.requests,
        Dimension::Tokens => match usage.tokens {
            Some(t) => t,
            None => 0,
        },
        Dimension::Bytes => match usage.bytes {
            Some(b) => b,
            None => 0,
        },
        Dimension::CostUsd => match usage.cost_micro_usd {
            Some(c) => c,
            None => 0,
        },
        Dimension::Concurrency => usage.requests,
    }
}

/// Outcome of a provider interaction.
#[derive(Debug, Clone, Copy, PartialEq, Eq, Structural)]
pub struct Outcome {
    /// Classified status of the response.
    pub status: StatusClass,
    /// Response latency in milliseconds.
    pub latency_ms: u64,
}

/// An observation reported by the caller after a provider interaction.
#[derive(Debug, Clone)]
pub struct Observation {
    /// Which provider was used.
    pub provider: String,
    /// Which capability was invoked (optional, for metrics).
    pub capability: Option<String>,
    /// Resource usage for this interaction.
    pub usage: Usage,
    /// Outcome of the interaction.
    pub outcome: Outcome,
}

} // verus!
