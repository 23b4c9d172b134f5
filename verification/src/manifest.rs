use vstd::prelude::*;

verus! {

/// How a service's health endpoint is probed.
pub struct HealthCheck {
    /// Path of the health endpoint, such as `/health`.
    pub endpoint: String,
    /// Seconds between probes once the service has reported healthy.
    pub interval_seconds: u64,
    /// Seconds a single probe may take.
    pub timeout_seconds: u64,
    /// Seconds after start during which an unhealthy service is probed quickly.
    pub startup_grace_seconds: u64,
}

/// One service of the manifest.
pub struct ServiceDef {
    /// Identifier, unique by convention.
    pub id: String,
    /// Name shown to the user.
    pub display_name: String,
    /// Local port the service listens on.
    pub port: u16,
    /// Directory of the service, relative to the repository root.
    pub working_dir: String,
    /// Python script that starts the service.
    pub entry_point: String,
    /// Environment variables, possibly holding `${..}` templates.
    pub env: Vec<(String, String)>,
    /// Health probing, if the service has an endpoint for it.
    pub health_check: Option<HealthCheck>,
    /// Commands that build the service's Python environment.
    pub build_steps: Vec<String>,
}

} // verus!
