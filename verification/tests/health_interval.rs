use service_manager::health::{health_check_interval, UNHEALTHY_RETRY_SECONDS};
use service_manager::manifest::HealthCheck;
use std::time::Duration;

fn health(interval_seconds: u64, startup_grace_seconds: u64) -> HealthCheck {
    HealthCheck {
        endpoint: "/health".to_string(),
        interval_seconds,
        timeout_seconds: 5,
        startup_grace_seconds,
    }
}

#[test]
fn unhealthy_services_poll_quickly_during_startup_grace() {
    let health = health(15, 120);

    assert_eq!(
        health_check_interval(&health, false, Duration::from_secs(20).as_secs()),
        Duration::from_secs(1).as_secs()
    );
}

#[test]
fn healthy_services_use_manifest_interval() {
    let health = health(15, 120);

    assert_eq!(
        health_check_interval(&health, true, Duration::from_secs(20).as_secs()),
        Duration::from_secs(15).as_secs()
    );
}

#[test]
fn unhealthy_services_after_grace_still_retry_without_long_delays() {
    let health = health(15, 120);

    assert_eq!(
        health_check_interval(&health, false, Duration::from_secs(121).as_secs()),
        Duration::from_secs(5).as_secs()
    );
}

#[test]
fn zero_interval_is_raised_to_one_second() {
    let health = health(0, 0);
    assert_eq!(health_check_interval(&health, true, 0), 1);
    assert_eq!(health_check_interval(&health, false, 10), 1);
}

#[test]
fn short_manifest_interval_is_kept_after_grace() {
    let health = health(3, 10);
    assert_eq!(health_check_interval(&health, false, 50), 3);
}

#[test]
fn grace_ends_exactly_at_its_length() {
    let health = health(30, 120);
    assert_eq!(health_check_interval(&health, false, 119), 1);
    assert_eq!(health_check_interval(&health, false, 120), UNHEALTHY_RETRY_SECONDS);
}

#[test]
fn healthy_service_ignores_grace() {
    let health = health(30, 120);
    assert_eq!(health_check_interval(&health, true, 0), 30);
}
