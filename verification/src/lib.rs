//! Anticipatory rate-limit orchestration: the verified core.
//!
//! Predict limits before providers enforce them. This crate holds the parts of the
//! engine that compute on integers: monotonic timestamps and clocks, the quota
//! trackers (token bucket, fixed window, sliding window, concurrency limiter),
//! the cooldown machine of the health engine, the provider and capability
//! registry, stable ranking of scored candidates, engine metrics, and the traffic
//! patterns and request counts of the simulator.
//!
//! The laws of the library are public proof functions (`lemma_*`) of the modules
//! they speak of.

pub mod arith;
pub mod capability;
pub mod clock;
pub mod engine;
pub mod error;
pub mod health;
pub mod metrics;
pub mod observation;
pub mod provider;
pub mod quota;
pub mod ranking;
pub mod simulation;
pub mod traffic;

pub use capability::{CapabilityConfig, CapabilityProvider};
pub use clock::{Clock, MockClock, RealClock, Timestamp};
pub use engine::{Candidate, EngineCore, ObserveStep};
pub use error::{Error, Result};
pub use health::HealthState;
pub use metrics::Metrics;
pub use observation::{Observation, Outcome, StatusClass, Usage, usage_amount};
pub use provider::ProviderConfig;
pub use quota::{
    BurnWindow, ConcurrencyLimiter, Dimension, FixedWindow, QuotaConfig, QuotaSample,
    QuotaTracker, SlidingWindowCounter, TokenBucket, Window, create_tracker,
};
pub use ranking::rank_descending;
pub use simulation::{SimTally, simulation_steps, tally_request};
pub use traffic::{LoadProfile, TrafficGenerator, TrafficPattern};
