use vstd::prelude::*;
use crate::manifest::HealthCheck;

verus! {

/// Seconds an unhealthy service waits between probes once its startup grace is over.
pub const UNHEALTHY_RETRY_SECONDS: u64 = 5;

/// The manifest's probe interval, never below one second.
pub open spec fn normal_interval(interval_seconds: u64) -> u64 {
    if interval_seconds < 1 { 1 } else { interval_seconds }
}

/// Seconds to wait between health probes of a service.
pub open spec fn probe_interval(
    interval_seconds: u64,
    startup_grace_seconds: u64,
    healthy: bool,
    elapsed_since_start_secs: u64,
) -> u64 {
    if healthy {
        normal_interval(interval_seconds)
    } else if elapsed_since_start_secs < startup_grace_seconds {
        1
    } else if normal_interval(interval_seconds) < UNHEALTHY_RETRY_SECONDS {
        normal_interval(interval_seconds)
    } else {
        UNHEALTHY_RETRY_SECONDS
    }
}

/// Seconds until the next health probe of a service.
///
/// A healthy service is probed at the manifest's interval (at least one
/// second). An unhealthy one is probed every second while it is still within
/// its startup grace, and afterwards at the manifest's interval capped at
/// five seconds, so that a service that comes up late turns green quickly.
///
/// `elapsed_since_start_secs` is the whole number of seconds since the
/// service was started: comparing whole seconds with the grace period gives
/// the same answer as comparing the exact elapsed time.
pub fn health_check_interval(health: &HealthCheck, healthy: bool, elapsed_since_start_secs: u64) -> (secs: u64)
    ensures
        secs == probe_interval(
            health.interval_seconds,
            health.startup_grace_seconds,
            healthy,
            elapsed_since_start_secs,
        ),
        1 <= secs,
        !healthy ==> secs <= UNHEALTHY_RETRY_SECONDS,
        healthy ==> secs >= health.interval_seconds,
{
    let normal_interval = if health.interval_seconds < 1 { 1 } else { health.interval_seconds };
    if healthy {
        normal_interval
    } else if elapsed_since_start_secs < health.startup_grace_seconds {
        1
    } else if normal_interval < UNHEALTHY_RETRY_SECONDS {
        normal_interval
    } else {
        UNHEALTHY_RETRY_SECONDS
    }
}

} // verus!
