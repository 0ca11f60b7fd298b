use beansd::beans_daemon::registry::{ProjectState as DaemonState, Registry as DaemonRegistry};
use beansd::beans_daemon::supervisor::{
    evict_after_wait, finish_start_project, health_poll_continues, EvictNext, EvictOutcome, EvictPhase,
};
use beansd::beansd::registry::{Project, ProjectState, Registry};
use beansd::beansd::supervisor::{begin_stop, children_to_stop, finish_start, finish_stop, StartError};

fn seeded(state: ProjectState<u32>) -> Registry<u32> {
    let mut r = Registry::new();
    r.insert(Project::new("/tmp/proj".into(), "proj".into(), state)).unwrap();
    r
}

#[test]
fn start_marks_healthy_when_child_responds() {
    let mut r = seeded(ProjectState::Spawning);
    finish_start(&mut r, &"/tmp/proj".to_string(), 4000, 1, true).unwrap();
    let p = r.get(&"/tmp/proj".to_string()).unwrap();
    assert!(matches!(p.state, ProjectState::Healthy { port: 4000, .. }));
}

#[test]
fn start_marks_dead_when_health_fails() {
    let mut r = seeded(ProjectState::Spawning);
    let err = finish_start(&mut r, &"/tmp/proj".to_string(), 4000, 1, false).unwrap_err();
    assert!(err.message().contains("failed to start project"));
    match err {
        StartError::Unhealthy { child } => assert_eq!(child, 1),
        StartError::Registry(_) => panic!("the child should be handed back to be killed"),
    }
    let p = r.get(&"/tmp/proj".to_string()).unwrap();
    match &p.state {
        ProjectState::Dead { reason } => assert_eq!(reason, "startup health check failed"),
        _ => panic!("project should be dead"),
    }
}

#[test]
fn start_of_unknown_project_errors() {
    let mut r: Registry<u32> = Registry::new();
    let err = finish_start(&mut r, &"/tmp/missing".to_string(), 4000, 1, true).unwrap_err();
    assert!(err.message().contains("unknown project"));
}

#[test]
fn stop_transitions_healthy_to_dead_and_kills_child() {
    let mut r: Registry<u32> = Registry::new();
    r.insert(Project::new("/tmp/p".into(), "p".into(), ProjectState::Healthy { port: 1234, child: 7 })).unwrap();
    let child = begin_stop(&mut r, &"/tmp/p".to_string());
    assert_eq!(child, Some(7));
    assert!(matches!(r.get(&"/tmp/p".to_string()).unwrap().state, ProjectState::Evicting));
    finish_stop(&mut r, &"/tmp/p".to_string()).unwrap();
    match &r.get(&"/tmp/p".to_string()).unwrap().state {
        ProjectState::Dead { reason } => assert_eq!(reason, "Process evicted"),
        _ => panic!("project should be dead"),
    }
}

#[test]
fn stop_on_unknown_key_is_noop() {
    let mut r: Registry<u32> = Registry::new();
    assert!(begin_stop(&mut r, &"/tmp/missing".to_string()).is_none());
}

#[test]
fn stop_on_non_healthy_is_noop() {
    let mut r = seeded(ProjectState::Spawning);
    assert!(begin_stop(&mut r, &"/tmp/proj".to_string()).is_none());
    assert!(matches!(r.get(&"/tmp/proj".to_string()).unwrap().state, ProjectState::Spawning));
}

#[test]
fn start_project_marks_healthy_when_child_responds() {
    let mut r = DaemonRegistry::new();
    r.insert_spawning("/tmp/proj".into(), "proj".into(), 1).unwrap();
    finish_start_project(&mut r, &"/tmp/proj".to_string(), 4000, 12345, 2, true, 3).unwrap();
    let p = r.get(&"/tmp/proj".to_string()).unwrap();
    assert!(matches!(p.state, DaemonState::Healthy { port: 4000, pid: 12345, spawned_at: 2 }));
}

#[test]
fn start_project_marks_dead_when_health_times_out() {
    let mut r = DaemonRegistry::new();
    r.insert_spawning("/tmp/proj".into(), "proj".into(), 1).unwrap();
    finish_start_project(&mut r, &"/tmp/proj".to_string(), 4000, 12345, 2, false, 3).unwrap();
    match &r.get(&"/tmp/proj".to_string()).unwrap().state {
        DaemonState::Dead { reason, since } => {
            assert_eq!(reason, "startup health check timed out");
            assert_eq!(*since, 3);
        },
        _ => panic!("project should be dead"),
    }
}

#[test]
fn evict_terminates_quickly_on_sigterm() {
    let mut r = DaemonRegistry::new();
    r.insert_spawning("/tmp/p".into(), "p".into(), 1).unwrap();
    r.transition_state(&"/tmp/p".to_string(), DaemonState::Healthy { port: 1, pid: 999, spawned_at: 1 }).unwrap();
    r.remove(&"/tmp/p".to_string());
    assert!(r.get(&"/tmp/p".to_string()).is_none());
}

#[test]
fn health_poll_stops_at_the_deadline() {
    assert!(health_poll_continues(5, 10));
    assert!(!health_poll_continues(10, 10));
    assert!(!health_poll_continues(11, 10));
}

#[test]
fn shutdown_signals_only_healthy_children_in_order() {
    let mut r: Registry<u32> = Registry::new();
    r.insert(Project::new("/a".into(), "a".into(), ProjectState::Healthy { port: 1, child: 11 })).unwrap();
    r.insert(Project::new("/b".into(), "b".into(), ProjectState::Spawning)).unwrap();
    r.insert(Project::new("/c".into(), "c".into(), ProjectState::Healthy { port: 3, child: 33 })).unwrap();
    r.insert(Project::new("/d".into(), "d".into(), ProjectState::Dead { reason: "x".into() })).unwrap();
    let children: Vec<u32> = children_to_stop(&r).into_iter().copied().collect();
    assert_eq!(children, vec![11, 33]);
    let empty: Registry<u32> = Registry::new();
    assert!(children_to_stop(&empty).is_empty());
}

#[test]
fn eviction_escalates_to_sigkill_then_drops_the_entry() {
    assert_eq!(evict_after_wait(EvictPhase::Term, true), EvictNext::Remove { outcome: EvictOutcome::Clean });
    assert_eq!(evict_after_wait(EvictPhase::Term, false), EvictNext::SendKill);
    assert_eq!(evict_after_wait(EvictPhase::Kill, true), EvictNext::Remove { outcome: EvictOutcome::Killed });
    assert_eq!(evict_after_wait(EvictPhase::Kill, false), EvictNext::Remove { outcome: EvictOutcome::Orphaned });
}
