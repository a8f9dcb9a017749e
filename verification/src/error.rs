use vstd::prelude::*;

verus! {

/// All errors produced by the engine.
#[derive(Debug)]
pub enum Error {
    /// The requested capability does not exist.
    UnknownCapability(String),
    /// The referenced provider does not exist.
    UnknownProvider(String),
    /// No providers are available for the requested capability.
    NoAvailableProviders(String),
    /// Provider referenced in capability is not registered.
    ProviderNotRegistered { capability: String, provider: String },
    /// Invalid configuration value.
    InvalidConfig(String),
}

/// Result type alias for engine operations.
pub type Result<T> = std::result::Result<T, Error>;

} // verus!
