use service_manager::launch::{resolve_env_var, LaunchContext};
use service_manager::manager::{runtime_log_text, ServiceManager, BUILD_LOG_KEPT, RUNTIME_LOG_TAIL_BYTES};
use service_manager::manifest::ServiceDef;
use service_manager::table::Table;
use std::path::PathBuf;

fn svc(id: &str, steps: usize) -> ServiceDef {
    ServiceDef {
        id: id.to_string(),
        display_name: id.to_string(),
        port: 9000,
        working_dir: id.to_string(),
        entry_point: "app.py".to_string(),
        env: vec![],
        health_check: None,
        build_steps: (0..steps).map(|i| format!("step {}", i)).collect(),
    }
}

fn manager() -> ServiceManager {
    ServiceManager::new(vec![svc("a", 2), svc("b", 0), svc("c", 1)], PathBuf::from("/r"))
}

fn ctx() -> LaunchContext {
    LaunchContext {
        appdata: Some("/home/u/appdata".to_string()),
        hf_token: "tok".to_string(),
        models_dir_env: Some("/models".to_string()),
        settings_models_dir: None,
        sa3_loudness_env: vec![],
        melodyflow_use_flash_attn: false,
        carey_use_xl_models: false,
        carey_use_scrag_vae: false,
    }
}

#[test]
fn build_info_errors_and_success() {
    let mut m = manager();
    assert_eq!(m.get_build_info("zzz").err().unwrap(), "Unknown service: zzz");
    assert_eq!(m.get_build_info("b").err().unwrap(), "No build steps defined for b");
    let info = m.get_build_info("a").unwrap();
    assert_eq!(info.service_id, "a");
    assert_eq!(info.build_steps, vec!["step 0".to_string(), "step 1".to_string()]);
    assert_eq!(info.work_dir, PathBuf::from("/r/a"));
    assert_eq!(info.env_dir, PathBuf::from("/r/a/env"));
    m.set_build_started("a", 2);
    assert_eq!(m.get_build_info("a").err().unwrap(), "a is already building");
    m.set_build_done("a", None);
    assert!(m.get_build_info("a").is_ok());
}

#[test]
fn build_progress_is_shown() {
    let mut m = manager();
    m.set_build_started("a", 3);
    let infos = m.get_service_info(&vec![false, false, false]);
    let st = infos[0].build_status.as_ref().unwrap();
    assert!(st.building);
    assert_eq!(st.step_label, "Creating virtual environment...");
    assert_eq!(st.total_steps, 3);
    m.set_build_step("a", 2, "Installing torch");
    m.set_build_step("zzz", 2, "ignored");
    let infos = m.get_service_info(&vec![false, false, false]);
    let st = infos[0].build_status.as_ref().unwrap();
    assert_eq!(st.current_step, 2);
    assert_eq!(st.step_label, "Installing torch");
    m.set_build_done("a", None);
    let infos = m.get_service_info(&vec![false, false, false]);
    let st = infos[0].build_status.as_ref().unwrap();
    assert!(!st.building);
    assert_eq!(st.current_step, 3);
    assert_eq!(st.step_label, "Build complete");
    assert_eq!(st.error, None);
}

#[test]
fn failed_build_keeps_its_step() {
    let mut m = manager();
    m.set_build_started("c", 4);
    m.set_build_step("c", 1, "venv");
    m.set_build_done("c", Some("pip failed".to_string()));
    let infos = m.get_service_info(&vec![false, false, false]);
    let st = infos[2].build_status.as_ref().unwrap();
    assert!(!st.building);
    assert_eq!(st.current_step, 1);
    assert_eq!(st.step_label, "venv");
    assert_eq!(st.error.as_deref(), Some("pip failed"));
}

#[test]
fn all_build_infos_skip_unbuildable() {
    let mut m = manager();
    let infos = m.get_all_build_infos();
    assert_eq!(infos[1].work_dir, PathBuf::from("/r/c"));
    assert_eq!(infos[1].env_dir, PathBuf::from("/r/c/env"));
    let ids: Vec<String> = infos.into_iter().map(|i| i.service_id).collect();
    assert_eq!(ids, vec!["a".to_string(), "c".to_string()]);
    m.set_build_started("c", 1);
    let ids: Vec<String> = m.get_all_build_infos().into_iter().map(|i| i.service_id).collect();
    assert_eq!(ids, vec!["a".to_string()]);
}

#[test]
fn build_log_is_capped() {
    let mut m = manager();
    m.append_build_log("a", "ignored before a build starts");
    m.set_build_started("a", 1);
    m.append_build_log("a", "first");
    assert_eq!(m.get_log("a", None).unwrap(), "first\n");
    let line = "x".repeat(999);
    for _ in 0..100 {
        m.append_build_log("a", &line);
    }
    let log = m.get_log("a", None).unwrap();
    assert_eq!(log.len(), BUILD_LOG_KEPT);
    m.append_build_log("a", &line);
    let log = m.get_log("a", None).unwrap();
    assert_eq!(log.len(), BUILD_LOG_KEPT + 1000);
    assert!(log.ends_with("x\n"));
    assert!(!log.contains("first"));
}

#[test]
fn log_priorities() {
    let mut m = manager();
    assert_eq!(m.get_log("zzz", None).err().unwrap(), "Unknown service: zzz");
    assert_eq!(m.get_log("a", None).unwrap(), "");
    // stopped, no build log: the runtime log file
    assert_eq!(m.get_log("a", Some(Ok("old run".to_string()))).unwrap(), "old run");
    // stopped with a build log: the build log wins over a stale runtime log
    m.set_build_started("a", 1);
    m.append_build_log("a", "built");
    assert_eq!(m.get_log("a", Some(Ok("old run".to_string()))).unwrap(), "built\n");
    // building: the build log, whatever the file holds
    assert_eq!(m.get_log("a", Some(Err("Cannot read log: x".to_string()))).unwrap(), "built\n");
    m.set_build_done("a", None);
    // running: the runtime log when not empty
    m.mark_started("a", 7, 0);
    assert_eq!(m.get_log("a", Some(Ok("live".to_string()))).unwrap(), "live");
    assert_eq!(m.get_log("a", Some(Ok("".to_string()))).unwrap(), "built\n");
    assert_eq!(
        m.get_log("a", Some(Err("Cannot read log: denied".to_string()))).err().unwrap(),
        "Cannot read log: denied"
    );
}

#[test]
fn runtime_log_tail_starts_with_a_whole_line() {
    assert_eq!(runtime_log_text(10, "ab\ncd".to_string()), "ab\ncd");
    assert_eq!(runtime_log_text(RUNTIME_LOG_TAIL_BYTES + 1, "ab\ncd".to_string()), "cd");
}

#[test]
fn templates_are_resolved() {
    let c = ctx();
    assert_eq!(resolve_env_var("${APPDATA}/x", &c), "/home/u/appdata/x");
    assert_eq!(resolve_env_var("${HF_TOKEN}", &c), "tok");
    assert_eq!(resolve_env_var("${MODELS_DIR}", &c), "/models");
    assert_eq!(resolve_env_var("plain", &c), "plain");
    let mut c2 = ctx();
    c2.models_dir_env = None;
    c2.appdata = None;
    assert_eq!(resolve_env_var("${MODELS_DIR}", &c2), "");
    assert_eq!(resolve_env_var("${APPDATA}", &c2), "${APPDATA}");
    let mut c3 = ctx();
    c3.settings_models_dir = Some("D:\\models".to_string());
    assert_eq!(resolve_env_var("anything", &c3), "anything");
    // the MODELS_DIR variable comes first
    assert_eq!(resolve_env_var("${MODELS_DIR}/x", &c3), "/models/x");
    c3.models_dir_env = None;
    assert_eq!(resolve_env_var("${MODELS_DIR}/x", &c3), "D:\\models/x");
    c3.settings_models_dir = Some("  ".to_string());
    assert_eq!(resolve_env_var("${MODELS_DIR}", &c3), "/home/u/appdata\\Gary4JUCE\\models");
}

#[test]
fn table_behaves_as_a_map() {
    let mut t: Table<u32> = Table::new();
    assert!(!t.contains_key(&"k".to_string()));
    t.insert("k".to_string(), 1);
    t.insert("j".to_string(), 2);
    t.insert("k".to_string(), 3);
    assert_eq!(t.get(&"k".to_string()), Some(&3));
    assert_eq!(t.remove(&"k".to_string()), Some(3));
    assert_eq!(t.remove(&"k".to_string()), None);
    assert_eq!(t.remove_any(), Some(("j".to_string(), 2)));
    assert_eq!(t.remove_any(), None);
}

#[test]
fn paths_of_services() {
    let m = manager();
    assert_eq!(m.python_exe("c"), Some(PathBuf::from("/r/c/env/Scripts/python.exe")));
    assert_eq!(m.runtime_log_path("a"), Some(PathBuf::from("/r/a/a.log")));
    assert_eq!(m.runtime_log_path("zzz"), None);
    assert_eq!(
        m.python_exes(),
        vec![
            PathBuf::from("/r/a/env/Scripts/python.exe"),
            PathBuf::from("/r/b/env/Scripts/python.exe"),
            PathBuf::from("/r/c/env/Scripts/python.exe"),
        ]
    );
}

#[test]
fn build_list_agrees_with_lookup() {
    let m = manager();
    for info in m.get_all_build_infos() {
        let single = m.get_build_info(&info.service_id).unwrap();
        assert_eq!(single.work_dir, info.work_dir);
        assert_eq!(single.env_dir, info.env_dir);
        assert_eq!(single.build_steps, info.build_steps);
    }
}

#[test]
fn runtime_log_is_consulted_only_when_needed() {
    let mut m = manager();
    assert!(!m.runtime_log_consulted("zzz"));
    assert!(m.runtime_log_consulted("a"));
    m.set_build_started("a", 1);
    assert!(!m.runtime_log_consulted("a"));
    m.append_build_log("a", "built");
    m.set_build_done("a", None);
    // stopped with a build log: the file is not needed
    assert!(!m.runtime_log_consulted("a"));
    m.mark_started("a", 1, 0);
    assert!(m.runtime_log_consulted("a"));
}
