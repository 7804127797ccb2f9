use vstd::prelude::*;

verus! {

/// Runtime configuration of the service: where the store lives, which
/// port the read endpoint listens on, and how often the synchronizer
/// runs. Values are supplied by the process environment at startup.
#[derive(Clone)]
pub struct Config {
    /// Connection URL for the relational store.
    pub database_url: String,
    /// TCP port the read endpoint binds to.
    pub port: u16,
    /// Seconds between two sync cycles.
    pub pooling_inverval_in_seconds: u64,
}

/// Shared context handed to read-endpoint handlers.
#[derive(Clone)]
pub struct ApiContext {
    pub config: Config,
}

} // verus!
