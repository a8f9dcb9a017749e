use vstd::prelude::*;

pub mod concurrency;
pub mod fixed_window;
pub mod sliding_window;
pub mod token_bucket;
pub mod tracker;

pub use concurrency::{ConcurrencyLimiter, ConcurrencyState};
pub use fixed_window::{FixedState, FixedWindow};
pub use sliding_window::{SlidingState, SlidingWindowCounter, interpolate};
pub use token_bucket::{BucketState, TokenBucket, PRECISION, refill_amount};
pub use tracker::{
    QuotaSample, QuotaTracker, TrackerState, create_tracker, initial_tracker, quota_fits,
};

verus! {

/// Quota dimension: what resource is being tracked.
#[derive(Debug, Clone, Copy, PartialEq, Eq, Hash, Structural)]
pub enum Dimension {
    /// Number of requests.
    Requests,
    /// Number of tokens (e.g., LLM tokens).
    Tokens,
    /// Concurrent active requests.
    Concurrency,
    /// Cost in USD.
    CostUsd,
    /// Bytes transferred.
    Bytes,
}

/// Time window for quota reset.
#[derive(Debug, Clone, Copy, PartialEq, Eq, Hash, Structural)]
pub enum Window {
    /// Per-second window.
    Second,
    /// Per-minute window.
    Minute,
    /// Per-hour window.
    Hour,
    /// Per-day window.
    Day,
}

/// Length of a window in seconds.
pub open spec fn window_secs(w: Window) -> u64 {
    match w {
        Window::Second => 1,
        Window::Minute => 60,
        Window::Hour => 3_600,
        Window::Day => 86_400,
    }
}

/// Length of a window in nanoseconds.
pub open spec fn window_nanos(w: Window) -> u64 {
    (window_secs(w) * 1_000_000_000) as u64
}

impl Window {
    /// Duration of this window in nanoseconds.
    pub fn as_nanos(&self) -> (r: u64)
        ensures
            r == window_nanos(*self),
            r > 0,
    {
        match self {
            Window::Second => 1_000_000_000,
            Window::Minute => 60_000_000_000,
            Window::Hour => 3_600_000_000_000,
            Window::Day => 86_400_000_000_000,
        }
    }

    /// Duration of this window in seconds.
    pub fn as_secs(&self) -> (r: u64)
        ensures
            r == window_secs(*self),
    {
        match self {
            Window::Second => 1,
            Window::Minute => 60,
            Window::Hour => 3_600,
            Window::Day => 86_400,
        }
    }
}

/// Consumption in a burn-rate window: the units consumed and the nanoseconds since
/// the window started. The burn rate in units per second is `consumed` divided by
/// the elapsed time in seconds, and zero when less than a millisecond has passed.
#[derive(Debug, Clone, Copy, PartialEq, Eq, Structural)]
pub struct BurnWindow {
    /// Units consumed in the window.
    pub consumed: u64,
    /// Nanoseconds since the window started.
    pub elapsed_nanos: u64,
}

/// Configuration for a single quota dimension on a provider.
#[derive(Debug, Clone, Copy, PartialEq, Eq, Structural)]
pub struct QuotaConfig {
    /// What resource is being limited.
    pub dimension: Dimension,
    /// Maximum allowed usage within the window.
    pub limit: u64,
    /// Time window for the limit. `None` for concurrency (no window).
    pub window: Option<Window>,
}

} // verus!
