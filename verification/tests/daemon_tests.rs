use rsigild::config::{AppConfig, ProcessConfig, Timestamp};
use rsigild::daemon::{plan_for, ChildProbe, DaemonError, DaemonManager, UpdatePlan};

fn at(secs: i64) -> Timestamp {
    Timestamp { secs, nanos: 0 }
}

fn sample(id: &str) -> ProcessConfig {
    ProcessConfig {
        id: id.to_string(),
        name: format!("name-{}", id),
        command: "node".to_string(),
        args: vec!["server.js".to_string()],
        working_dir: Some("/srv/app".to_string()),
        env_vars: vec![],
        health_check_url: Some("http://localhost:3000/health".to_string()),
        health_check_interval_secs: 600,
        auto_restart: true,
        log_path: String::new(),
        enabled: true,
        last_pid: None,
        created_at: at(100),
        updated_at: at(100),
    }
}

fn manager(ids: &[&str]) -> DaemonManager {
    DaemonManager::new(AppConfig { processes: ids.iter().map(|i| sample(i)).collect() })
}

fn ids(m: &DaemonManager) -> Vec<String> {
    m.get_processes().into_iter().map(|p| p.id).collect()
}

#[test]
fn add_refuses_a_known_id() {
    let mut m = manager(&["a"]);
    assert!(matches!(m.plan_add(&sample("a")), Err(DaemonError::AlreadyExists(ref id)) if id == "a"));
    let res = m.add_process(sample("a"), Some(Ok(5)), at(150));
    match res {
        Err(e) => {
            assert!(matches!(&e, DaemonError::AlreadyExists(id) if id == "a"));
            assert_eq!(e.message(), "Process with id a already exists");
        }
        Ok(()) => panic!("duplicate accepted"),
    }
    assert_eq!(ids(&m), vec!["a"]);
    assert!(!m.is_running("a"));
}

#[test]
fn add_starts_an_enabled_process_first() {
    let mut m = manager(&["a"]);
    assert!(matches!(m.plan_add(&sample("b")), Ok(true)));
    assert!(m.add_process(sample("b"), Some(Ok(77)), at(150)).is_ok());
    assert_eq!(ids(&m), vec!["a", "b"]);
    assert!(m.is_running("b"));
    assert_eq!(m.running_pids(), vec![77]);
    // The entry is appended as given.
    assert_eq!(m.get_processes()[1].last_pid, None);
    assert_eq!(m.get_processes()[1].updated_at, at(100));
}

#[test]
fn add_that_fails_to_start_changes_nothing() {
    let mut m = manager(&["a"]);
    let failure = DaemonError::StartFailed("name-b".to_string(), "not found".to_string());
    let res = m.add_process(sample("b"), Some(Err(failure)), at(150));
    match res {
        Err(e) => assert_eq!(e.message(), "Failed to start process name-b: not found"),
        Ok(()) => panic!("failed start accepted"),
    }
    assert_eq!(ids(&m), vec!["a"]);
    assert!(!m.is_running("b"));
}

#[test]
fn add_of_a_disabled_process_only_appends() {
    let mut m = manager(&[]);
    let mut c = sample("b");
    c.enabled = false;
    assert!(matches!(m.plan_add(&c), Ok(false)));
    assert!(m.add_process(c, None, at(150)).is_ok());
    assert_eq!(ids(&m), vec!["b"]);
    assert!(!m.is_running("b"));
}

#[test]
fn start_then_status_reports_running() {
    let mut m = manager(&["a"]);
    let cfg = m.find_config("a").unwrap();
    m.record_start(&cfg, 4242, at(200));
    assert!(m.is_running("a"));
    assert_eq!(m.app_config().processes[0].last_pid, Some(4242));
    assert_eq!(m.app_config().processes[0].updated_at, at(200));
    let (st, dropped) = m.get_process_status("a", Some(ChildProbe { pid: 4242, alive: true }), at(300));
    assert!(!dropped);
    assert!(st.running);
    assert_eq!(st.pid, Some(4242));
    assert_eq!(st.id, "a");
    assert_eq!(st.restart_count, 0);
    assert_eq!(m.running_pids(), vec![4242]);
}

#[test]
fn stop_then_status_reports_idle() {
    let mut m = manager(&["a"]);
    let cfg = m.find_config("a").unwrap();
    m.record_start(&cfg, 7, at(200));
    let rec = m.stop_process("a", at(300)).expect("was running");
    assert!(!rec.status.running);
    assert_eq!(rec.status.pid, None);
    assert!(!m.is_running("a"));
    assert_eq!(m.app_config().processes[0].last_pid, None);
    assert_eq!(m.app_config().processes[0].updated_at, at(300));
    assert!(m.stop_process("a", at(400)).is_none());
    assert_eq!(m.app_config().processes[0].updated_at, at(300));
    let (st, dropped) = m.get_process_status("a", None, at(500));
    assert!(!dropped && !st.running && st.pid.is_none());
}

#[test]
fn status_of_unknown_process_is_idle() {
    let mut m = manager(&[]);
    let (st, dropped) = m.get_process_status("ghost", None, at(1));
    assert_eq!(st.id, "ghost");
    assert!(!st.running && st.pid.is_none() && !dropped);
    assert_eq!(st.restart_count, 0);
}

#[test]
fn dead_child_is_dropped_from_watch() {
    let mut m = manager(&["a"]);
    let cfg = m.find_config("a").unwrap();
    m.record_start(&cfg, 7, at(200));
    let (st, dropped) = m.get_process_status("a", Some(ChildProbe { pid: 7, alive: false }), at(300));
    assert!(dropped);
    assert!(!st.running && st.pid.is_none());
    assert!(!m.is_running("a"));
    assert_eq!(m.app_config().processes[0].last_pid, None);
}

#[test]
fn remove_stops_and_forgets() {
    let mut m = manager(&["a", "b", "a"]);
    let cfg = m.find_config("a").unwrap();
    m.record_start(&cfg, 9, at(200));
    let rec = m.remove_process("a", at(300));
    assert!(rec.is_some());
    assert_eq!(ids(&m), vec!["b"]);
    assert!(!m.is_running("a"));
    assert!(m.remove_process("zzz", at(400)).is_none());
    assert_eq!(ids(&m), vec!["b"]);
}

#[test]
fn update_plans_follow_the_changes() {
    let old = sample("a");
    let mut disabled = sample("a");
    disabled.enabled = false;
    assert_eq!(plan_for(&old, &disabled), UpdatePlan::Stop);
    let mut moved = sample("a");
    moved.working_dir = None;
    assert_eq!(plan_for(&old, &moved), UpdatePlan::Restart);
    let mut new_args = sample("a");
    new_args.args.push("--port=1".to_string());
    assert_eq!(plan_for(&old, &new_args), UpdatePlan::Restart);
    let mut renamed = sample("a");
    renamed.name = "other".to_string();
    assert_eq!(plan_for(&old, &renamed), UpdatePlan::Keep);
    assert_eq!(plan_for(&disabled, &old), UpdatePlan::Restart);
    assert_eq!(plan_for(&disabled, &disabled), UpdatePlan::Keep);
}

#[test]
fn update_replaces_the_configuration() {
    let mut m = manager(&["a", "b"]);
    let mut renamed = sample("b");
    renamed.name = "renamed".to_string();
    assert!(matches!(m.plan_update(&renamed), Ok(UpdatePlan::Keep)));
    assert!(m.update_process(renamed, None, at(150)).is_ok());
    let ps = m.get_processes();
    assert_eq!(ps[1].name, "renamed");
    assert_eq!(ps[0].name, "name-a");
    let unknown = sample("zzz");
    assert!(matches!(m.plan_update(&unknown), Err(DaemonError::NotFound)));
    assert!(matches!(m.update_process(unknown, None, at(150)), Err(DaemonError::NotFound)));
    assert_eq!(ids(&m), vec!["a", "b"]);
}

#[test]
fn disabling_update_stops_the_process() {
    let mut m = manager(&["a"]);
    let cfg = m.find_config("a").unwrap();
    m.record_start(&cfg, 9, at(120));
    let mut disabled = sample("a");
    disabled.enabled = false;
    assert!(matches!(m.plan_update(&disabled), Ok(UpdatePlan::Stop)));
    assert!(m.update_process(disabled, None, at(150)).is_ok());
    assert!(!m.is_running("a"));
    assert!(!m.get_processes()[0].enabled);
}

#[test]
fn restarting_update_watches_the_new_pid() {
    let mut m = manager(&["a"]);
    let cfg = m.find_config("a").unwrap();
    m.record_start(&cfg, 9, at(120));
    let mut moved = sample("a");
    moved.args = vec!["other.js".to_string()];
    assert!(matches!(m.plan_update(&moved), Ok(UpdatePlan::Restart)));
    assert!(m.update_process(moved, Some(Ok(10)), at(150)).is_ok());
    assert_eq!(m.running_pids(), vec![10]);
    assert_eq!(m.get_processes()[0].args, vec!["other.js".to_string()]);
}

#[test]
fn failed_restarting_update_keeps_the_old_entry_stopped() {
    let mut m = manager(&["a"]);
    let cfg = m.find_config("a").unwrap();
    m.record_start(&cfg, 9, at(120));
    let mut moved = sample("a");
    moved.command = "missing-binary".to_string();
    let failure = DaemonError::StartFailed("name-a".to_string(), "not found".to_string());
    let res = m.update_process(moved, Some(Err(failure)), at(150));
    assert!(matches!(res, Err(DaemonError::StartFailed(_, _))));
    assert!(!m.is_running("a"));
    let ps = m.get_processes();
    assert_eq!(ps[0].command, "node");
    assert_eq!(ps[0].last_pid, None);
    assert_eq!(ps[0].updated_at, at(150));
}

#[test]
fn failed_health_check_restarts_and_counts() {
    let mut m = manager(&["a"]);
    let cfg = m.find_config("a").unwrap();
    m.record_start(&cfg, 10, at(200));
    assert!(!m.record_health_check("a", true, at(210)));
    assert_eq!(m.restart_count("a"), Some(0));
    assert!(m.record_health_check("a", false, at(220)));
    assert_eq!(m.restart_count("a"), Some(1));
    m.record_restart("a", Some(11));
    let (st, _) = m.get_process_status("a", None, at(230));
    assert_eq!(st.pid, Some(11));
    assert!(st.running);
    assert_eq!(st.health_check_ok, Some(false));
    assert_eq!(st.last_health_check, Some(at(220)));
    assert_eq!(st.last_restart, Some(at(220)));
    m.record_restart("a", None);
    let (st, _) = m.get_process_status("a", None, at(240));
    assert!(!st.running);
    assert_eq!(st.pid, None);
    assert!(m.running_pids().is_empty());
    // A process whose restart failed has no child; a probe is not consulted.
    let (st, dropped) = m.get_process_status("a", Some(ChildProbe { pid: 12, alive: true }), at(250));
    assert!(!dropped && !st.running && st.pid.is_none());
}

#[test]
fn failed_check_without_auto_restart_only_records() {
    let mut m = manager(&[]);
    let mut cfg = sample("a");
    cfg.auto_restart = false;
    m.record_start(&cfg, 10, at(200));
    assert!(!m.record_health_check("a", false, at(220)));
    assert_eq!(m.restart_count("a"), Some(0));
    assert!(!m.record_health_check("nobody", false, at(220)));
}

#[test]
fn errors_read_like_the_original() {
    assert_eq!(DaemonError::NotFound.message(), "Process not found");
    assert_eq!(DaemonError::Io("Permission denied".to_string()).message(), "Permission denied");
    assert_eq!(
        DaemonError::StartFailed("web".to_string(), "No such file or directory".to_string()).message(),
        "Failed to start process web: No such file or directory"
    );
}

#[test]
fn log_path_needs_a_known_process() {
    let m = manager(&["a"]);
    assert_eq!(m.log_path("a", "/cfg").unwrap(), "/cfg/logs/a.log");
    assert!(matches!(m.log_path("b", "/cfg"), Err(DaemonError::NotFound)));
}

#[test]
fn start_replaces_an_earlier_record() {
    let mut m = manager(&["a"]);
    let cfg = m.find_config("a").unwrap();
    m.record_start(&cfg, 1, at(200));
    m.record_start(&cfg, 2, at(300));
    assert_eq!(m.running_pids(), vec![2]);
}
