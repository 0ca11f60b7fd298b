use beansd::beans_daemon::control::{
    handle_cd, handle_heartbeat, handle_ls, handle_start, handle_status, handle_stop, CdOutcome, StartOutcome,
};
use beansd::beans_daemon::registry::{ProjectState, Registry};

#[test]
fn cd_into_dir_without_marker_reports_not_registered() {
    let mut r = Registry::new();
    let plan = handle_cd(&mut r, Ok(None), 8, 1);
    assert_eq!(plan.outcome, CdOutcome::NotRegistered);
}

#[test]
fn cd_resolve_error_is_reported() {
    let mut r = Registry::new();
    let plan = handle_cd(&mut r, Err("No such file or directory".into()), 8, 1);
    assert_eq!(plan.outcome, CdOutcome::ResolveFailed { error: "No such file or directory".into() });
    assert!(!plan.start);
}

#[test]
fn cd_into_marked_dir_spawns_and_registers() {
    let mut r = Registry::new();
    let plan = handle_cd(&mut r, Ok(Some("/tmp/proj".into())), 8, 1);
    assert_eq!(plan.outcome, CdOutcome::Spawned { key: "/tmp/proj".into() });
    assert!(plan.start);
    assert!(matches!(r.get(&"/tmp/proj".to_string()).unwrap().state, ProjectState::Spawning { since: 1 }));
}

#[test]
fn ls_returns_empty_projects_array() {
    let r = Registry::new();
    assert_eq!(handle_ls(&r).len(), 0);
}

#[test]
fn control_heartbeat_bumps_last_used() {
    let mut r = Registry::new();
    r.insert_spawning("/tmp/x".into(), "x".into(), 100).unwrap();
    let before = r.get(&"/tmp/x".to_string()).unwrap().last_used;
    handle_heartbeat(&mut r, &"/tmp/x".to_string(), 120);
    let after = r.get(&"/tmp/x".to_string()).unwrap().last_used;
    assert!(after > before);
}

#[test]
fn status_reports_registry_size_and_cap() {
    let mut r = Registry::new();
    r.insert_spawning("/tmp/a".into(), "a".into(), 1).unwrap();
    let s = handle_status(&r, 8);
    assert_eq!(s.registry_size, 1);
    assert_eq!(s.active, 1);
    assert_eq!(s.lru_cap, 8);
}

#[test]
fn stop_unknown_project_returns_error() {
    let r = Registry::new();
    assert!(!handle_stop(&r, &"/tmp/missing".to_string()));
}

#[test]
fn start_unknown_project_returns_error() {
    let mut r = Registry::new();
    assert_eq!(handle_start(&mut r, &"/tmp/missing".to_string(), 1), StartOutcome::Unknown);
}

#[test]
fn start_already_healthy_is_noop() {
    let mut r = Registry::new();
    r.insert_spawning("/tmp/p".into(), "p".into(), 1).unwrap();
    r.transition_state(&"/tmp/p".to_string(), ProjectState::Healthy { port: 1, pid: 2, spawned_at: 1 }).unwrap();
    assert_eq!(handle_start(&mut r, &"/tmp/p".to_string(), 5), StartOutcome::AlreadyActive);
}

#[test]
fn ls_lists_labels_and_ports() {
    let mut r = Registry::new();
    r.insert_spawning("/tmp/p".into(), "p".into(), 1).unwrap();
    r.transition_state(&"/tmp/p".to_string(), ProjectState::Healthy { port: 4242, pid: 2, spawned_at: 1 }).unwrap();
    r.insert_spawning("/tmp/q".into(), "q".into(), 1).unwrap();
    let ls = handle_ls(&r);
    assert_eq!(ls[0].state, "healthy");
    assert_eq!(ls[0].port, Some(4242));
    assert_eq!(ls[1].state, "spawning");
    assert_eq!(ls[1].port, None);
}
