use beansd::beansd::daemon::{handle_cd, handle_heartbeat, handle_ls, handle_start, handle_status, handle_stop};
use beansd::beansd::registry::{Project, ProjectState, Registry};
use beansd::rpc::types::{CdResponse, ProjectState as RpcState, StartResponse};

fn seeded(state: ProjectState<u32>, key: &str) -> Registry<u32> {
    let mut r = Registry::new();
    r.insert(Project::new_at(key.into(), "x".into(), state, 10)).unwrap();
    r
}

#[test]
fn cd_no_marker_returns_not_registered() {
    let mut r: Registry<u32> = Registry::new();
    let plan = handle_cd(&mut r, None, 8, 1);
    assert_eq!(plan.response, CdResponse::NotRegistered);
    assert!(!plan.start);
    assert_eq!(r.iter().len(), 0);
}

#[test]
fn cd_marked_dir_registers_spawning_and_asks_for_start() {
    let mut r: Registry<u32> = Registry::new();
    let plan = handle_cd(&mut r, Some("/home/jo/proj".into()), 8, 5);
    assert_eq!(plan.response, CdResponse::Spawned { key: "/home/jo/proj".into() });
    assert!(plan.start);
    assert!(plan.evict.is_none());
    let p = r.get(&"/home/jo/proj".to_string()).unwrap();
    assert!(matches!(p.state, ProjectState::Spawning));
    assert_eq!(p.display_name, "proj");
    assert_eq!(p.last_used, 5);
}

#[test]
fn cd_registered_dir_bumps() {
    let mut r = seeded(ProjectState::Spawning, "/tmp/x");
    let plan = handle_cd(&mut r, Some("/tmp/x".into()), 8, 99);
    assert_eq!(plan.response, CdResponse::Bumped { key: "/tmp/x".into() });
    assert!(!plan.start);
    assert_eq!(r.get(&"/tmp/x".to_string()).unwrap().last_used, 99);
}

#[test]
fn cd_at_cap_evicts_the_lru_healthy_project() {
    let mut r: Registry<u32> = Registry::new();
    r.insert(Project::new_at("/a".into(), "a".into(), ProjectState::Healthy { port: 1, child: 1 }, 3)).unwrap();
    r.insert(Project::new_at("/b".into(), "b".into(), ProjectState::Healthy { port: 2, child: 2 }, 1)).unwrap();
    let plan = handle_cd(&mut r, Some("/c".into()), 2, 9);
    assert_eq!(plan.evict, Some("/b".to_string()));
    assert_eq!(r.iter().len(), 3);
    let plan = handle_cd(&mut r, Some("/d".into()), 8, 9);
    assert!(plan.evict.is_none());
}

#[test]
fn ls_returns_empty_for_empty_registry() {
    let r: Registry<u32> = Registry::new();
    assert_eq!(handle_ls(&r).projects.len(), 0);
}

#[test]
fn ls_reports_state_and_port() {
    let r = seeded(ProjectState::Healthy { port: 4242, child: 1 }, "/p");
    let ls = handle_ls(&r);
    assert_eq!(ls.projects.len(), 1);
    assert_eq!(ls.projects[0].key, "/p");
    assert_eq!(ls.projects[0].state, RpcState::Healthy);
    assert_eq!(ls.projects[0].port, Some(4242));
}

#[test]
fn daemon_heartbeat_bumps_last_used() {
    let mut r = seeded(ProjectState::Spawning, "/tmp/x");
    let before = r.get(&"/tmp/x".to_string()).unwrap().last_used;
    handle_heartbeat(&mut r, &"/tmp/x".to_string(), before + 20);
    let after = r.get(&"/tmp/x".to_string()).unwrap().last_used;
    assert!(after > before);
}

#[test]
fn status_reports_size_and_cap() {
    let r = seeded(ProjectState::Spawning, "/tmp/a");
    let s = handle_status(&r, 8);
    assert_eq!(s.registry_size, 1);
    assert_eq!(s.active, 1);
    assert_eq!(s.lru_cap, 8);
}

#[test]
fn stop_unknown_project_errors() {
    let r: Registry<u32> = Registry::new();
    let res = handle_stop(&r, &"/tmp/missing".to_string());
    assert!(res.is_err());
    assert!(res.err().unwrap().message().contains("unknown project"));
}

#[test]
fn start_unknown_project_errors() {
    let mut r: Registry<u32> = Registry::new();
    let res = handle_start(&mut r, &"/tmp/missing".to_string());
    assert!(res.is_err());
    assert!(res.err().unwrap().message().contains("unknown project"));
}

#[test]
fn start_already_healthy_returns_already_active() {
    let mut r = seeded(ProjectState::Healthy { port: 1, child: 1 }, "/tmp/p");
    assert_eq!(handle_start(&mut r, &"/tmp/p".to_string()).unwrap(), StartResponse::AlreadyActive);
}

#[test]
fn start_dead_project_respawns() {
    let mut r = seeded(ProjectState::Dead { reason: "x".into() }, "/tmp/p");
    assert_eq!(handle_start(&mut r, &"/tmp/p".to_string()).unwrap(), StartResponse::Spawning);
    assert!(matches!(r.get(&"/tmp/p".to_string()).unwrap().state, ProjectState::Spawning));
}

#[test]
fn start_of_a_dead_project_respawns_without_moving_since_back() {
    let far = u64::MAX - 1;
    let mut r: Registry<u32> = Registry::new();
    r.insert(Project::new_at("/p".into(), "p".into(), ProjectState::Dead { reason: "x".into() }, far)).unwrap();
    assert_eq!(handle_start(&mut r, &"/p".to_string()), Ok(StartResponse::Spawning));
    let p = r.get(&"/p".to_string()).unwrap();
    assert!(matches!(p.state, ProjectState::Spawning));
    assert_eq!(p.since, far);

    let mut r = seeded(ProjectState::Evicting, "/q");
    assert_eq!(handle_start(&mut r, &"/q".to_string()), Ok(StartResponse::Spawning));
    assert!(r.get(&"/q".to_string()).unwrap().since >= 10);
}
