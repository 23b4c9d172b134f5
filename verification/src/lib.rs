//! Bookkeeping for locally run Python model services: which services are
//! running, when each is due for a health probe, build progress and logs.
//! Process handles, the file system and the environment stay with the
//! caller; this crate decides what to do and records what happened.

pub mod manifest;
pub mod health;
pub mod table;
pub mod text;
pub mod paths;
pub mod launch;
pub mod manager;
pub mod laws;

pub use manifest::{HealthCheck, ServiceDef};
pub use health::health_check_interval;
