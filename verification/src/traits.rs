//! What a party that wants to hear about configuration updates implements.

use vstd::prelude::*;
use std::sync::Arc;

use crate::config::Config;

verus! {

/// Something that is told about every configuration update.
///
/// The publisher calls `update` for every update of every environment; an
/// implementation picks out the environments it cares about.
pub trait ConfigUpdateSubscriber: Send + Sync {
    /// Receives the environment name and its new configuration.
    ///
    /// Only `SubscriberList::tell` calls it, so that every call is on its record;
    /// verified code cannot meet the `requires`, and `tell`'s body is not verified.
    fn update(&self, env: String, config: Arc<Config>)
        requires
            crate::delivery::told_through_list(env@, config),
    ;

    /// The environment this subscriber follows.
    fn env(&self) -> String;
}

/// Whether an update of `env` concerns a subscriber that follows `followed_env`:
/// exactly when the two names are equal.
pub fn concerns(followed_env: &String, env: &String) -> (r: bool)
    ensures
        r == (followed_env@ == env@),
{
    *followed_env == *env
}

} // verus!
