//! How the server answers its requests: which status, and which message.

use vstd::prelude::*;
use std::sync::Arc;

use crate::config::{Config, ConfigError};
use crate::external::{same_settings, settings_equal};
use crate::publisher::ConfigVersion;
use crate::text::{decimal, decimal_string};

verus! {

/// An answer to a request.
#[derive(Debug)]
pub enum Reply<T> {
    /// Success, with the value as the JSON body.
    Json(T),
    /// Success, with a text body.
    Text(String),
    /// Status 404, with a text body.
    NotFound(String),
    /// Status 400, with a text body.
    BadRequest(String),
    /// Status 500, with a text body.
    ServerError(String),
}

/// What asking for an environment's current configuration gave, before an update.
#[derive(Debug)]
pub enum CurrentLookup {
    /// The environment's newest configuration.
    Found(Arc<Config>),
    /// The environment has no configuration yet.
    Missing,
    /// The question could not be asked.
    Failed,
}

/// How an update request ended.
#[derive(Debug, Clone, PartialEq, Eq)]
pub enum UpdateOutcome {
    /// The new settings equal the current ones; nothing was stored.
    Unchanged,
    /// The configuration was stored and sent out.
    Applied,
    /// Storing was refused, for the reason given.
    Rejected(String),
    /// The request to store never reached the publisher.
    Undelivered,
}

/// The answer to a request for an environment's newest configuration.
pub fn config_reply(found: Option<Arc<Config>>, env: &str) -> (r: Reply<Arc<Config>>)
    ensures
        match found {
            Some(c) => r == Reply::Json(c),
            None => r matches Reply::NotFound(m) && m@ == "Configuration not found for environment: "@
                + env@,
        },
{
    match found {
        Some(c) => Reply::Json(c),
        None => {
            let mut m = String::from_str("Configuration not found for environment: ");
            m.append(env);
            Reply::NotFound(m)
        },
    }
}

/// The answer to a request for an environment's history.
pub fn history_reply(found: Result<Vec<ConfigVersion>, ConfigError>, env: &str) -> (r: Reply<
    Vec<ConfigVersion>,
>)
    ensures
        match found {
            Ok(h) => r == Reply::Json(h),
            Err(ConfigError::NotFound(_)) => r matches Reply::NotFound(m) && m@
                == "Configuration history not found for environment: "@ + env@,
            Err(_) => r matches Reply::ServerError(m) && m@ == "Unexpected error occurred"@,
        },
{
    match found {
        Ok(h) => Reply::Json(h),
        Err(ConfigError::NotFound(_)) => {
            let mut m = String::from_str("Configuration history not found for environment: ");
            m.append(env);
            Reply::NotFound(m)
        },
        Err(_) => Reply::ServerError(String::from_str("Unexpected error occurred")),
    }
}

/// The answer to a request for one version of an environment's configuration.
pub fn version_reply(found: Result<Arc<Config>, ConfigError>, env: &str, version: usize) -> (r: Reply<
    Arc<Config>,
>)
    ensures
        match found {
            Ok(c) => r == Reply::Json(c),
            Err(ConfigError::NotFound(_)) => r matches Reply::NotFound(m) && m@
                == "Configuration not found for environment: "@ + env@,
            Err(ConfigError::OutOfBounds(_)) => r matches Reply::BadRequest(m) && m@
                == "Invalid version number: "@ + decimal(version as nat) + " for environment: "@
                + env@,
            Err(_) => r matches Reply::ServerError(m) && m@ == "Unexpected error occurred"@,
        },
{
    match found {
        Ok(c) => Reply::Json(c),
        Err(ConfigError::NotFound(_)) => {
            let mut m = String::from_str("Configuration not found for environment: ");
            m.append(env);
            Reply::NotFound(m)
        },
        Err(ConfigError::OutOfBounds(_)) => {
            let mut m = String::from_str("Invalid version number: ");
            let number = decimal_string(version);
            m.append(number.as_str());
            m.append(" for environment: ");
            m.append(env);
            Reply::BadRequest(m)
        },
        Err(_) => Reply::ServerError(String::from_str("Unexpected error occurred")),
    }
}

/// Whether an update can be skipped: exactly when the environment's current
/// configuration was found and serde_yaml counts its settings equal to the new ones.
pub fn update_is_redundant(current: &CurrentLookup, new_config: &Config) -> (skip: bool)
    ensures
        skip == (current matches CurrentLookup::Found(c) && settings_equal(
            c.settings@,
            new_config.settings@,
        )),
        (current matches CurrentLookup::Found(c) && c.settings@ == new_config.settings@) ==> skip,
{
    match current {
        CurrentLookup::Found(c) => same_settings(&c.settings, &new_config.settings),
        _ => false,
    }
}

/// The answer to an update request.
pub fn update_reply(outcome: UpdateOutcome) -> (r: Reply<()>)
    ensures
        match outcome {
            UpdateOutcome::Unchanged => r matches Reply::Text(m) && m@ == "No changes in configuration."@,
            UpdateOutcome::Applied => r matches Reply::Text(m) && m@
                == "Configuration updated and broadcasted successfully."@,
            UpdateOutcome::Rejected(e) => r matches Reply::ServerError(m) && m@ == "Error: "@ + e@,
            UpdateOutcome::Undelivered => r matches Reply::ServerError(m) && m@
                == "Actor message sending failed."@,
        },
{
    match outcome {
        UpdateOutcome::Unchanged => Reply::Text(String::from_str("No changes in configuration.")),
        UpdateOutcome::Applied => Reply::Text(
            String::from_str("Configuration updated and broadcasted successfully."),
        ),
        UpdateOutcome::Rejected(e) => {
            let mut m = String::from_str("Error: ");
            m.append(e.as_str());
            Reply::ServerError(m)
        },
        UpdateOutcome::Undelivered => Reply::ServerError(String::from_str("Actor message sending failed.")),
    }
}

} // verus!
