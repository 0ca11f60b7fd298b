use beansd::beans_daemon::registry::{ProjectState as DaemonState, Registry as DaemonRegistry};
use beansd::beansd::registry::{Project, ProjectState, Registry, RegistryError};
use beansd::clock;

fn key(s: &str) -> String {
    s.to_string()
}

const TEN_SECS: u64 = 10_000_000_000;

#[test]
fn insert_adds_to_registry() {
    let mut r: Registry<u32> = Registry::new();
    let res = r.insert(Project::new(key("/tmp/p"), "p".into(), ProjectState::Spawning));
    assert!(res.is_ok(), "Failed to insert project");
    let fetched = r.get(&key("/tmp/p"));
    assert!(fetched.is_some());
}

#[test]
fn registry_duplicate_insert_errors() {
    let mut r: Registry<u32> = Registry::new();
    let res = r.insert(Project::new(key("/tmp/p"), "p".into(), ProjectState::Spawning));
    assert!(res.is_ok(), "Failed to insert project");
    let res = r.insert(Project::new(key("/tmp/p"), "p".into(), ProjectState::Spawning));
    assert!(res.is_err());

    let mut d = DaemonRegistry::new();
    let now = clock::now();
    d.insert_spawning(key("/tmp/p"), "p".into(), now).unwrap();
    assert!(d.insert_spawning(key("/tmp/p"), "p".into(), now).is_err());
}

#[test]
fn registry_bump_updates_last_used() {
    let mut r: Registry<u32> = Registry::new();
    let t0 = clock::now();
    r.insert(Project::new_at(key("/tmp/p"), "p".into(), ProjectState::Spawning, t0)).unwrap();
    let t1 = t0 + TEN_SECS;
    assert_ne!(r.get(&key("/tmp/p")).unwrap().last_used, t1);
    r.bump_last_used(&key("/tmp/p"), t1);
    assert_eq!(r.get(&key("/tmp/p")).unwrap().last_used, t1);

    let mut d = DaemonRegistry::new();
    d.insert_spawning(key("/tmp/p"), "p".into(), t0).unwrap();
    d.bump_last_used(&key("/tmp/p"), t1);
    assert_eq!(d.get(&key("/tmp/p")).unwrap().last_used, t1);
}

#[test]
fn registry_bump_missing_is_noop() {
    let mut r: Registry<u32> = Registry::new();
    r.bump_last_used(&key("/tmp/missing"), clock::now());
    assert!(r.get(&key("/tmp/missing")).is_none());

    let mut d = DaemonRegistry::new();
    d.bump_last_used(&key("/tmp/missing"), clock::now());
    assert!(d.get(&key("/tmp/missing")).is_none());
}

#[test]
fn transition_state_unknown_key_errors() {
    let mut r: Registry<u32> = Registry::new();
    let err = r.transition_state(&key("/tmp/missing"), ProjectState::Dead { reason: "x".into() });
    assert!(err.is_err());
}

#[test]
fn counts_toward_cap_for_active_states() {
    let now = clock::now();
    assert!(DaemonState::Spawning { since: now }.counts_toward_cap());
    assert!(DaemonState::Healthy { port: 1, pid: 2, spawned_at: now }.counts_toward_cap());
    assert!(!DaemonState::Evicting { since: now }.counts_toward_cap());
    assert!(!DaemonState::Dead { reason: "x".into(), since: now }.counts_toward_cap());
}

#[test]
fn insert_spawning_adds_to_registry() {
    let mut r = DaemonRegistry::new();
    let now = clock::now();
    r.insert_spawning(key("/tmp/p"), "p".into(), now).unwrap();
    let proj = r.get(&key("/tmp/p")).unwrap();
    assert!(matches!(proj.state, DaemonState::Spawning { .. }));
    assert_eq!(proj.display_name, "p");
}

#[test]
fn registry_error_messages_name_the_key() {
    let mut r: Registry<u32> = Registry::new();
    r.insert(Project::new(key("/tmp/p"), "p".into(), ProjectState::Spawning)).unwrap();
    match r.insert(Project::new(key("/tmp/p"), "p".into(), ProjectState::Spawning)) {
        Err(e) => assert_eq!(e.message(), "project already registered: /tmp/p"),
        Ok(()) => panic!("duplicate insert accepted"),
    }
    match r.transition_state(&key("/tmp/q"), ProjectState::Evicting) {
        Err(RegistryError::UnknownProject { key: k }) => assert_eq!(k, "/tmp/q"),
        _ => panic!("unknown key accepted"),
    }
}

#[test]
fn transition_returns_the_prior_state_and_keeps_the_rest() {
    let mut r: Registry<u32> = Registry::new();
    r.insert(Project::new_at(key("/tmp/p"), "p".into(), ProjectState::Spawning, 5)).unwrap();
    let prior = r.transition_state_at(&key("/tmp/p"), ProjectState::Healthy { port: 4242, child: 7 }, 9).unwrap();
    assert!(matches!(prior, ProjectState::Spawning));
    let p = r.get(&key("/tmp/p")).unwrap();
    assert!(matches!(p.state, ProjectState::Healthy { port: 4242, child: 7 }));
    assert_eq!(p.since, 9);
    assert_eq!(p.last_used, 5);
    assert_eq!(p.display_name, "p");
}

#[test]
fn set_state_returns_the_prior_state() {
    let mut p: Project<u32> = Project::new_at(key("/tmp/p"), "p".into(), ProjectState::Spawning, 1);
    let prior = p.set_state_at(ProjectState::Evicting, 3);
    assert!(matches!(prior, ProjectState::Spawning));
    assert!(matches!(p.state, ProjectState::Evicting));
    assert_eq!(p.since, 3);
    let prior = p.set_state(ProjectState::Dead { reason: "gone".into() });
    assert!(matches!(prior, ProjectState::Evicting));
}

#[test]
fn count_active_counts_spawning_and_healthy() {
    let mut r: Registry<u32> = Registry::new();
    r.insert(Project::new(key("/a"), "a".into(), ProjectState::Spawning)).unwrap();
    r.insert(Project::new(key("/b"), "b".into(), ProjectState::Healthy { port: 1, child: 1 })).unwrap();
    r.insert(Project::new(key("/c"), "c".into(), ProjectState::Evicting)).unwrap();
    r.insert(Project::new(key("/d"), "d".into(), ProjectState::Dead { reason: "x".into() })).unwrap();
    assert_eq!(r.count_active(), 2);
    assert_eq!(r.count_healthy(), 1);
    assert_eq!(r.iter().len(), 4);
}

#[test]
fn daemon_registry_remove_drops_only_that_key() {
    let mut d = DaemonRegistry::new();
    d.insert_spawning(key("/a"), "a".into(), 1).unwrap();
    d.insert_spawning(key("/b"), "b".into(), 2).unwrap();
    let gone = d.remove(&key("/a")).unwrap();
    assert_eq!(gone.key, "/a");
    assert!(d.get(&key("/a")).is_none());
    assert!(d.get(&key("/b")).is_some());
    assert!(d.remove(&key("/a")).is_none());
}

#[test]
fn registry_keys_compare_as_paths() {
    let mut r: Registry<u32> = Registry::new();
    r.insert(Project::new(key("/tmp/p"), "p".into(), ProjectState::Spawning)).unwrap();
    assert_eq!(r.get(&key("/tmp/p/")).unwrap().key, "/tmp/p");
    assert_eq!(r.get(&key("//tmp/./p")).unwrap().key, "/tmp/p");
    assert!(r.get(&key("tmp/p")).is_none());
    assert!(r.get(&key("/tmp/p/q")).is_none());
    let err = r.insert(Project::new(key("/tmp/p/"), "p".into(), ProjectState::Spawning)).unwrap_err();
    assert_eq!(err, RegistryError::AlreadyRegistered { key: key("/tmp/p/") });
    assert!(r.transition_state(&key("/tmp/p/"), ProjectState::Evicting).is_ok());
    assert!(matches!(r.get(&key("/tmp/p")).unwrap().state, ProjectState::Evicting));

    let mut d = DaemonRegistry::new();
    d.insert_spawning(key("/tmp/p"), "p".into(), 1).unwrap();
    assert!(d.get(&key("/tmp/p/")).is_some());
    assert!(d.insert_spawning(key("/tmp/p/"), "p".into(), 2).is_err());
    assert!(d.remove(&key("/tmp/p/")).is_some());
    assert!(d.get(&key("/tmp/p")).is_none());
}

#[test]
fn set_state_returns_the_prior_state_and_never_moves_since_back() {
    let far = u64::MAX - 1;
    let mut p: Project<u32> = Project::new_at(key("/tmp/p"), "p".into(), ProjectState::Spawning, far);
    let prior = p.set_state(ProjectState::Evicting);
    assert!(matches!(prior, ProjectState::Spawning));
    assert!(matches!(p.state, ProjectState::Evicting));
    assert_eq!(p.since, far);
    assert_eq!(p.last_used, far);

    let mut q: Project<u32> = Project::new_at(key("/tmp/q"), "q".into(), ProjectState::Spawning, 0);
    q.set_state(ProjectState::Evicting);
    assert!(q.since > 0);

    let mut r: Registry<u32> = Registry::new();
    r.insert(Project::new_at(key("/tmp/r"), "r".into(), ProjectState::Spawning, far)).unwrap();
    let prior = r.transition_state(&key("/tmp/r"), ProjectState::Evicting).unwrap();
    assert!(matches!(prior, ProjectState::Spawning));
    assert_eq!(r.get(&key("/tmp/r")).unwrap().since, far);
}
