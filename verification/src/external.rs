//! The outside types that the library carries and the few outside calls it makes.
//!
//! Everything here is trusted: Verus believes these declarations and contracts
//! without reading the outside code.

use vstd::prelude::*;
use std::collections::BTreeMap;
use std::sync::Arc;

use crate::config::{Config, ConfigError};

verus! {

/// A YAML value as `serde_yaml` represents it. The library only carries such values.
#[verifier::external_type_specification]
#[verifier::external_body]
pub struct ExYamlValue(serde_yaml::Value);

/// The error that `serde_yaml` reports when a document cannot be parsed.
#[verifier::external_type_specification]
#[verifier::external_body]
pub struct ExYamlError(serde_yaml::Error);

/// An I/O error of std, carried inside `ConfigError`.
#[verifier::external_type_specification]
#[verifier::external_body]
pub struct ExIoError(std::io::Error);

/// The sending half of a `tokio` watch channel.
#[verifier::external_type_specification]
#[verifier::external_body]
#[verifier::reject_recursive_types(T)]
pub struct ExWatchSender<T>(tokio::sync::watch::Sender<T>);

/// Calls `Arc::clone`, which hands out a second pointer to the same
/// allocation; the contract claims the clone is the same value.
#[verifier::external_body]
pub(crate) fn share_config(config: &Arc<Config>) -> (shared: Arc<Config>)
    ensures
        shared == *config,
{
    Arc::clone(config)
}

/// The system clock's reading, as std's `SystemTime`.
#[verifier::external_type_specification]
#[verifier::external_body]
pub struct ExSystemTime(std::time::SystemTime);

/// Calls `std::time::SystemTime::now`. The clock decides the value, so nothing is claimed.
#[verifier::external_body]
pub(crate) fn clock_now() -> (t: std::time::SystemTime) {
    std::time::SystemTime::now()
}

/// Calls `SystemTime::duration_since(UNIX_EPOCH)`: the time since 1970, or `None`
/// when the reading lies before 1970 (the call's error). Nothing more is claimed.
#[verifier::external_body]
pub(crate) fn duration_since_epoch(t: &std::time::SystemTime) -> (d: Option<std::time::Duration>) {
    t.duration_since(std::time::UNIX_EPOCH).ok()
}

/// Calls `Duration::as_secs`: the whole seconds of a duration. Verus sees nothing
/// inside a `Duration`, so nothing is claimed.
#[verifier::external_body]
pub(crate) fn whole_seconds(d: &std::time::Duration) -> (secs: u64) {
    d.as_secs()
}

/// Calls `Duration::subsec_nanos`, which std documents as always less than one billion.
#[verifier::external_body]
pub(crate) fn subsecond_nanos(d: &std::time::Duration) -> (nanos: u32)
    ensures
        nanos < 1_000_000_000,
{
    d.subsec_nanos()
}

/// Whether `serde_yaml` counts two settings maps equal (`BTreeMap::eq`, comparing
/// the entries with `serde_yaml::Value::eq`). It depends on the two maps alone.
pub uninterp spec fn settings_equal(
    a: Map<String, serde_yaml::Value>,
    b: Map<String, serde_yaml::Value>,
) -> bool;

/// The settings that `serde_yaml::from_str` reads from `text` as a map from names to
/// YAML values, or `None` when `text` is not such a document. It depends on the text alone.
pub uninterp spec fn yaml_settings(text: Seq<char>) -> Option<Map<String, serde_yaml::Value>>;

/// Compares two settings maps with `BTreeMap::eq`, which compares the entries with
/// `serde_yaml::Value::eq`; the answer is `settings_equal` of the two maps. That
/// comparison is reflexive (serde_yaml counts two NaN floats as equal), so equal
/// maps compare equal.
#[verifier::external_body]
pub(crate) fn same_settings(
    a: &BTreeMap<String, serde_yaml::Value>,
    b: &BTreeMap<String, serde_yaml::Value>,
) -> (same: bool)
    ensures
        same == settings_equal(a@, b@),
        a@ == b@ ==> same,
{
    a == b
}

/// Calls `serde_yaml::from_str` to read `text` as a map from setting names to YAML
/// values, and wraps the map as a `Config` or the error as `ConfigError::YamlError`.
#[verifier::external_body]
pub(crate) fn parse_yaml_settings(text: &str) -> (r: Result<Config, ConfigError>)
    ensures
        r is Ok <==> yaml_settings(text@) is Some,
        r matches Ok(c) ==> c.settings@ == yaml_settings(text@)->0,
        r matches Err(e) ==> e is YamlError,
{
    match serde_yaml::from_str::<BTreeMap<String, serde_yaml::Value>>(text) {
        Ok(settings) => Ok(Config { settings }),
        Err(e) => Err(ConfigError::YamlError(e)),
    }
}

/// Whether an I/O error is of kind `std::io::ErrorKind::NotFound`; the kind is
/// part of the error value alone.
pub uninterp spec fn io_error_not_found(err: std::io::Error) -> bool;

/// Calls `io::Error::kind` and tells `ErrorKind::NotFound` apart from the other kinds.
#[verifier::external_body]
pub(crate) fn is_not_found(err: &std::io::Error) -> (found: bool)
    ensures
        found == io_error_not_found(*err),
{
    match err.kind() {
        std::io::ErrorKind::NotFound => true,
        _ => false,
    }
}

/// Calls `to_string` on an I/O error. The text comes from the operating system and
/// its locale, so nothing is claimed about it.
#[verifier::external_body]
pub(crate) fn io_error_text(err: &std::io::Error) -> (text: String) {
    err.to_string()
}

} // verus!
