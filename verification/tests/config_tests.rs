use rsigild::config::{
    app_config_dir, app_log_path, get_config_path, join_path, log_dir, process_log_path,
    uses_default_log_path, AppConfig, ProcessConfig, Timestamp,
};

fn sample(id: &str) -> ProcessConfig {
    ProcessConfig {
        id: id.to_string(),
        name: format!("name-{}", id),
        command: "node".to_string(),
        args: vec!["server.js".to_string()],
        working_dir: Some("/srv/app".to_string()),
        env_vars: vec![("PORT".to_string(), "3000".to_string())],
        health_check_url: Some("http://localhost:3000/health".to_string()),
        health_check_interval_secs: 600,
        auto_restart: true,
        log_path: String::new(),
        enabled: true,
        last_pid: None,
        created_at: Timestamp { secs: 1_700_000_000, nanos: 5 },
        updated_at: Timestamp { secs: 1_700_000_000, nanos: 5 },
    }
}

#[test]
fn new_config_has_documented_defaults() {
    let c = ProcessConfig::new("My API Server".to_string(), "node".to_string());
    assert_eq!(c.name, "My API Server");
    assert_eq!(c.command, "node");
    assert!(c.args.is_empty());
    assert_eq!(c.working_dir, None);
    assert!(c.env_vars.is_empty());
    assert_eq!(c.health_check_url, None);
    assert_eq!(c.health_check_interval_secs, 600);
    assert!(c.auto_restart);
    assert_eq!(c.log_path, "");
    assert!(c.enabled);
    assert_eq!(c.last_pid, None);
    assert_eq!(c.created_at, c.updated_at);
}

#[test]
fn new_config_id_is_a_random_uuid() {
    let a = ProcessConfig::new("a".to_string(), "x".to_string());
    let b = ProcessConfig::new("b".to_string(), "x".to_string());
    assert_eq!(a.id.len(), 36);
    let chars: Vec<char> = a.id.chars().collect();
    for (i, c) in chars.iter().enumerate() {
        if i == 8 || i == 13 || i == 18 || i == 23 {
            assert_eq!(*c, '-');
        } else {
            assert!(c.is_ascii_hexdigit() && !c.is_ascii_uppercase());
        }
    }
    assert_eq!(chars[14], '4');
    assert!(matches!(chars[19], '8' | '9' | 'a' | 'b'));
    assert_ne!(a.id, b.id);
}

#[test]
fn new_config_time_is_now() {
    let c = ProcessConfig::new("a".to_string(), "x".to_string());
    assert!(c.created_at.secs > 1_600_000_000);
    assert!(c.created_at.nanos < 1_000_000_000);
}

#[test]
fn duplicate_keeps_every_field() {
    let c = sample("p1");
    let d = c.duplicate();
    assert_eq!(d.id, c.id);
    assert_eq!(d.name, c.name);
    assert_eq!(d.args, c.args);
    assert_eq!(d.env_vars, c.env_vars);
    assert_eq!(d.working_dir, c.working_dir);
    assert_eq!(d.health_check_url, c.health_check_url);
    assert_eq!(d.created_at, c.created_at);
}

#[test]
fn empty_app_config_has_no_processes() {
    assert!(AppConfig::new().processes.is_empty());
}

#[test]
fn config_path_is_inside_config_dir() {
    assert_eq!(get_config_path("/home/u/.config/rsigild/config"), "/home/u/.config/rsigild/config/config.json");
    assert_eq!(get_config_path("/tmp/cfg/"), "/tmp/cfg/config.json");
    assert_eq!(get_config_path(""), "config.json");
}

#[test]
fn join_with_rooted_name_replaces_base() {
    assert_eq!(join_path("/a/b", "/etc/x"), "/etc/x");
    assert_eq!(join_path("/a/b", "c"), "/a/b/c");
}

#[test]
fn log_locations_follow_the_readme() {
    assert_eq!(log_dir("/cfg"), "/cfg/logs");
    assert_eq!(app_log_path("/cfg"), "/cfg/logs/rsigild.log");
    let c = sample("p1");
    assert_eq!(process_log_path(&c, "/cfg"), "/cfg/logs/p1.log");
    let mut custom = sample("p2");
    custom.log_path = "/var/log/myapp.log".to_string();
    assert_eq!(process_log_path(&custom, "/cfg"), "/var/log/myapp.log");
}

#[test]
fn config_dir_follows_the_readme() {
    assert_eq!(app_config_dir("/home/u/.config", false), "/home/u/.config/rsigild/config");
    assert_eq!(
        app_config_dir("/Users/u/Library/Application Support", true),
        "/Users/u/Library/Application Support/com.rsigild.rsigild/config"
    );
}

#[test]
fn default_log_path_is_used_without_a_custom_one() {
    let mut c = sample("p");
    assert!(uses_default_log_path(&c));
    c.log_path = "/var/log/x.log".to_string();
    assert!(!uses_default_log_path(&c));
}

#[test]
fn epoch_offsets_become_timestamps() {
    assert_eq!(Timestamp::from_epoch_offset(true, 5, 7), Timestamp { secs: 5, nanos: 7 });
    assert_eq!(Timestamp::from_epoch_offset(false, 5, 0), Timestamp { secs: -5, nanos: 0 });
    assert_eq!(
        Timestamp::from_epoch_offset(false, 5, 250_000_000),
        Timestamp { secs: -6, nanos: 750_000_000 }
    );
    assert_eq!(Timestamp::from_epoch_offset(true, u64::MAX, 1), Timestamp { secs: i64::MAX, nanos: 1 });
    assert_eq!(Timestamp::from_epoch_offset(false, u64::MAX, 0), Timestamp { secs: i64::MIN, nanos: 0 });
    let now = Timestamp::now();
    assert!(now.secs > 1_600_000_000 && now.nanos < 1_000_000_000);
}
