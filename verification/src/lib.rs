//! A configuration server's core: per-environment configuration histories,
//! update notification, and the rules by which requests are answered.

pub mod config;
pub mod clock;
pub mod config_file;
pub mod delivery;
pub mod external;
pub mod keyed;
pub mod publisher;
pub mod replies;
pub mod sse;
pub mod text;
pub mod traits;

pub use config::{Config, ConfigError, ConfigUpdate, EnvConfigs};
pub use config_file::{classify_config_file, ConfigFileKind};

pub use publisher::{ConfigUpdateMessage, ConfigVersion, Publisher, Timestamp};
pub use sse::{GetCurrentConfig, UpdateAndBroadcastEnvConfig};
pub use traits::ConfigUpdateSubscriber;
