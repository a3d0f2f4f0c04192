//! The requests that the server's actor answers.

use vstd::prelude::*;

use crate::config::Config;

verus! {

/// Asks for the current configuration of an environment.
#[derive(Debug, Clone)]
pub struct GetCurrentConfig {
    pub environment: String,
}

/// Asks to store a configuration for an environment and tell everyone about it.
#[derive(Debug, Clone)]
pub struct UpdateAndBroadcastEnvConfig {
    pub env: String,
    pub config: Config,
}

} // verus!
