use service_manager::launch::{EnvAction, LaunchContext};
use service_manager::manager::{exit_message, ProcessExit, ServiceManager, NANOS_PER_SEC};
use service_manager::manifest::{HealthCheck, ServiceDef};
use std::path::PathBuf;

fn svc(id: &str, port: u16, health: Option<HealthCheck>) -> ServiceDef {
    ServiceDef {
        id: id.to_string(),
        display_name: format!("{} service", id),
        port,
        working_dir: format!("services/{}", id),
        entry_point: "main.py".to_string(),
        env: vec![],
        health_check: health,
        build_steps: vec!["pip install -r requirements.txt".to_string()],
    }
}

fn check(interval: u64, grace: u64) -> Option<HealthCheck> {
    Some(HealthCheck {
        endpoint: "/health".to_string(),
        interval_seconds: interval,
        timeout_seconds: 0,
        startup_grace_seconds: grace,
    })
}

fn ctx() -> LaunchContext {
    LaunchContext {
        appdata: None,
        hf_token: String::new(),
        models_dir_env: None,
        settings_models_dir: None,
        sa3_loudness_env: vec![],
        melodyflow_use_flash_attn: false,
        carey_use_xl_models: false,
        carey_use_scrag_vae: false,
    }
}

fn manager() -> ServiceManager {
    ServiceManager::new(
        vec![svc("gary", 8000, check(15, 120)), svc("jerry", 8001, None)],
        PathBuf::from("/repo"),
    )
}

fn status_of(m: &ServiceManager, id: &str) -> String {
    let infos = m.get_service_info(&vec![true, false]);
    infos.into_iter().find(|i| i.id == id).unwrap().status
}

#[test]
fn unknown_service_cannot_start() {
    let mut m = manager();
    let r = m.start("nope", true, &ctx());
    assert_eq!(r.err().unwrap(), "Unknown service: nope");
    assert!(m.python_exe("nope").is_none());
    assert!(m.python_exe("gary").is_some());
}

#[test]
fn missing_environment_refuses_start() {
    let mut m = manager();
    let r = m.start("gary", false, &ctx());
    assert_eq!(
        r.err().unwrap(),
        "Python venv not found at /repo/services/gary/env/Scripts/python.exe. Build the environment first."
    );
}

#[test]
fn start_plan_and_running_state() {
    let mut m = manager();
    let plan = m.start("gary", true, &ctx()).unwrap();
    assert_eq!(plan.service_id, "gary");
    assert_eq!(plan.entry_point, "main.py");
    assert_eq!(plan.work_dir, PathBuf::from("/repo/services/gary"));
    assert_eq!(plan.log_path, PathBuf::from("/repo/services/gary/gary.log"));
    assert_eq!(plan.python, PathBuf::from("/repo/services/gary/env/Scripts/python.exe"));
    assert_eq!(
        plan.base_env,
        vec![
            ("PYTHONIOENCODING".to_string(), "utf-8".to_string()),
            ("PYTHONUNBUFFERED".to_string(), "1".to_string())
        ]
    );
    assert!(plan.service_env.is_empty());
    assert!(!m.is_running("gary"));
    assert_eq!(status_of(&m, "gary"), "stopped");
    m.mark_started("gary", 4242, 0);
    assert!(m.is_running("gary"));
    assert_eq!(status_of(&m, "gary"), "starting");
    let again = m.start("gary", true, &ctx());
    assert_eq!(again.err().unwrap(), "gary is already running");
    m.set_health("gary", true);
    assert_eq!(status_of(&m, "gary"), "running");
    let infos = m.get_service_info(&vec![true, false]);
    assert_eq!(infos[0].pid, Some(4242));
    assert_eq!(infos[0].display_name, "gary service");
    assert_eq!(infos[0].port, 8000);
    assert!(infos[0].env_exists);
    assert_eq!(infos[0].health_endpoint.as_deref(), Some("http://localhost:8000/health"));
    assert_eq!(infos[1].pid, None);
    assert!(!infos[1].env_exists);
    assert_eq!(infos[1].health_endpoint, None);
    assert!(infos[1].build_status.is_none());
}

#[test]
fn stop_clears_running_and_error() {
    let mut m = manager();
    assert_eq!(m.stop("gary").err().unwrap(), "gary is not running");
    m.mark_started("gary", 1, 0);
    assert!(m.stop("gary").is_ok());
    assert!(!m.is_running("gary"));
    assert_eq!(status_of(&m, "gary"), "stopped");
}

#[test]
fn exits_are_recorded_as_failures() {
    let mut m = manager();
    m.mark_started("gary", 1, 0);
    m.mark_started("jerry", 2, 0);
    m.check_processes(vec![
        ProcessExit { id: "gary".to_string(), success: false, code: Some(3) },
        ProcessExit { id: "jerry".to_string(), success: false, code: None },
        ProcessExit { id: "other".to_string(), success: true, code: Some(0) },
    ]);
    assert!(!m.is_running("gary"));
    assert!(!m.is_running("jerry"));
    let infos = m.get_service_info(&vec![true, true]);
    assert_eq!(infos[0].status, "failed");
    assert_eq!(infos[0].error.as_deref(), Some("Process crashed (exit code: 3)"));
    assert_eq!(infos[1].error.as_deref(), Some("Process crashed (exit code: signal)"));
    // starting again clears the recorded error
    let _plan = m.start("gary", true, &ctx()).unwrap();
    assert_eq!(status_of(&m, "gary"), "stopped");
}

#[test]
fn exit_messages() {
    assert_eq!(exit_message(true, Some(0)), "Process exited cleanly (code 0)");
    assert_eq!(exit_message(false, Some(-1)), "Process crashed (exit code: -1)");
    assert_eq!(exit_message(false, None), "Process crashed (exit code: signal)");
}

#[test]
fn stop_all_stops_everything() {
    let mut m = manager();
    m.mark_started("gary", 1, 0);
    m.mark_started("jerry", 2, 0);
    m.check_processes(vec![ProcessExit { id: "jerry".to_string(), success: true, code: Some(0) }]);
    m.mark_started("jerry", 3, 0);
    m.stop_all();
    assert!(!m.is_running("gary"));
    assert!(!m.is_running("jerry"));
    assert_eq!(status_of(&m, "jerry"), "stopped");
}

#[test]
fn health_probes_follow_the_intervals() {
    let mut m = manager();
    assert!(m.take_due_health_targets(0).is_empty());
    m.mark_started("gary", 1, 0);
    m.mark_started("jerry", 2, 0);
    let first = m.take_due_health_targets(10);
    assert_eq!(first.len(), 1);
    assert_eq!(first[0].id, "gary");
    assert_eq!(first[0].port, 8000);
    assert_eq!(first[0].endpoint, "/health");
    assert_eq!(first[0].timeout_seconds, 1);
    // asking again at the same instant hands out nothing
    assert!(m.take_due_health_targets(10).is_empty());
    // unhealthy within grace: every second
    assert!(m.take_due_health_targets(10 + NANOS_PER_SEC - 1).is_empty());
    assert_eq!(m.take_due_health_targets(10 + NANOS_PER_SEC).len(), 1);
    // healthy: the manifest interval of 15 seconds
    m.set_health("gary", true);
    let t0 = 10 + NANOS_PER_SEC;
    assert!(m.take_due_health_targets(t0 + 14 * NANOS_PER_SEC).is_empty());
    assert_eq!(m.take_due_health_targets(t0 + 15 * NANOS_PER_SEC).len(), 1);
    // unhealthy after grace: every five seconds
    m.set_health("gary", false);
    let t1 = t0 + 15 * NANOS_PER_SEC;
    let late = t1 + 200 * NANOS_PER_SEC;
    assert_eq!(m.take_due_health_targets(late).len(), 1);
    assert!(m.take_due_health_targets(late + 4 * NANOS_PER_SEC).is_empty());
    assert_eq!(m.take_due_health_targets(late + 5 * NANOS_PER_SEC).len(), 1);
}

#[test]
fn service_environment_is_resolved() {
    let mut s = svc("gary", 8000, None);
    s.env = vec![
        ("CACHE".to_string(), "${APPDATA}/cache".to_string()),
        ("TOKEN".to_string(), "${HF_TOKEN}".to_string()),
        ("MODELS".to_string(), "${MODELS_DIR}/m".to_string()),
        ("EMPTY".to_string(), "".to_string()),
        ("UNKNOWN".to_string(), "${NOPE}".to_string()),
        ("PLAIN".to_string(), "x".to_string()),
    ];
    let mut m = ServiceManager::new(vec![s], PathBuf::from("/repo"));
    let mut c = ctx();
    c.appdata = Some("C:\\Users\\u\\AppData".to_string());
    c.hf_token = "hf_abc".to_string();
    let plan = m.start("gary", true, &c).unwrap();
    let expected = vec![
        ("CACHE", "C:\\Users\\u\\AppData/cache"),
        ("TOKEN", "hf_abc"),
        ("MODELS", "C:\\Users\\u\\AppData\\Gary4JUCE\\models/m"),
        ("PLAIN", "x"),
    ];
    assert_eq!(plan.service_env.len(), expected.len());
    for (a, (k, v)) in plan.service_env.iter().zip(expected) {
        match a {
            EnvAction::Assign(key, value) => {
                assert_eq!(key, k);
                assert_eq!(value, v);
            }
            EnvAction::Remove(_) => panic!("unexpected removal"),
        }
    }
}

#[test]
fn carey_gets_its_model_configuration() {
    let mut m = ServiceManager::new(vec![svc("carey", 8003, None)], PathBuf::from("/repo"));
    let mut c = ctx();
    c.carey_use_xl_models = true;
    let plan = m.start("carey", true, &c).unwrap();
    assert_eq!(plan.service_env.len(), 8);
    match &plan.service_env[0] {
        EnvAction::Assign(k, v) => {
            assert_eq!(k, "ACESTEP_CONFIG_PATH");
            assert_eq!(v, "acestep-v15-xl-base");
        }
        _ => panic!("expected an assignment"),
    }
    match &plan.service_env[3] {
        EnvAction::Assign(k, v) => {
            assert_eq!(k, "ACESTEP_TURBO_CONFIG_PATH");
            assert_eq!(v, "acestep-v15-xl-turbo");
        }
        _ => panic!("expected an assignment"),
    }
    match &plan.service_env[7] {
        EnvAction::Remove(k) => assert_eq!(k, "ACESTEP_VAE_PATH"),
        _ => panic!("expected a removal"),
    }
}

#[test]
fn sa3_and_melodyflow_extras() {
    let mut m = ServiceManager::new(
        vec![svc("sa3", 8004, None), svc("melodyflow", 8005, None)],
        PathBuf::from("/repo"),
    );
    let mut c = ctx();
    c.sa3_loudness_env = vec![
        ("SA3_TARGET_LUFS".to_string(), "  -14 ".to_string()),
        ("SA3_BLANK".to_string(), "   ".to_string()),
    ];
    c.melodyflow_use_flash_attn = true;
    let plan = m.start("sa3", true, &c).unwrap();
    assert_eq!(plan.service_env.len(), 1);
    match &plan.service_env[0] {
        EnvAction::Assign(k, v) => {
            assert_eq!(k, "SA3_TARGET_LUFS");
            assert_eq!(v, "-14");
        }
        _ => panic!("expected an assignment"),
    }
    let plan = m.start("melodyflow", true, &c).unwrap();
    match &plan.service_env[0] {
        EnvAction::Assign(k, v) => {
            assert_eq!(k, "MELODYFLOW_USE_FLASH_ATTN");
            assert_eq!(v, "1");
        }
        _ => panic!("expected an assignment"),
    }
}

#[test]
fn one_probe_per_service_id() {
    let mut m = ServiceManager::new(
        vec![svc("dup", 8000, check(15, 0)), svc("dup", 8001, check(1, 0))],
        PathBuf::from("/repo"),
    );
    m.mark_started("dup", 1, 0);
    let targets = m.take_due_health_targets(0);
    assert_eq!(targets.len(), 1);
    assert_eq!(targets[0].port, 8000);
    assert!(m.take_due_health_targets(0).is_empty());
}
