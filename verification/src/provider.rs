use vstd::prelude::*;

use crate::quota::{QuotaConfig, quota_fits};

verus! {

/// Configuration for a provider.
///
/// The scoring weight multiplier of a provider is a floating-point value that no
/// decision of the engine reads; it is kept by the caller.
#[derive(Debug, Clone)]
pub struct ProviderConfig {
    /// Unique provider name (e.g., "openai", "anthropic").
    pub name: String,
    /// Quota configurations for this provider.
    pub quotas: Vec<QuotaConfig>,
    /// Default priority (higher = preferred). Overridden at capability level.
    pub priority: u16,
    /// Cooldown duration in seconds after repeated failures.
    pub cooldown_seconds: u64,
}

impl ProviderConfig {
    /// Whether a tracker can be created for every quota of the provider.
    pub open spec fn quotas_fit(self) -> bool {
        forall|i: int| 0 <= i < self.quotas@.len() ==> quota_fits(#[trigger] self.quotas@[i])
    }
}

} // verus!
