use beansd::beansd::eviction::sweep_step;
use beansd::beansd::registry::{Project, ProjectState, Registry};
use beansd::beansd::supervisor::{begin_stop, finish_stop};

const SEC: u64 = 1_000_000_000;

fn healthy(key: &str) -> Project<u32> {
    Project::new(key.into(), key.into(), ProjectState::Healthy { port: 1, child: 1 })
}

fn seed(projects: Vec<Project<u32>>) -> Registry<u32> {
    let mut r = Registry::new();
    for p in projects {
        r.insert(p).unwrap();
    }
    r
}

/// Runs one sweep the way the evictor does, stopping through the supervisor
/// steps, and returns the keys it stopped.
fn run_one_sweep(r: &mut Registry<u32>, lru_cap: usize) -> Vec<String> {
    let mut stopped = Vec::new();
    while let Some(key) = sweep_step(r, lru_cap) {
        stopped.push(key.clone());
        if begin_stop(r, &key).is_some() {
            finish_stop(r, &key).unwrap();
        }
    }
    stopped
}

#[test]
fn lru_returns_none_when_empty() {
    let r: Registry<u32> = Registry::new();
    assert!(r.find_lru_for_eviction().is_none());
}

#[test]
fn lru_returns_none_when_no_healthy() {
    let r = seed(vec![
        Project::new("/tmp/a".into(), "a".into(), ProjectState::Spawning),
        Project::new("/tmp/b".into(), "b".into(), ProjectState::Evicting),
        Project::new("/tmp/c".into(), "c".into(), ProjectState::Dead { reason: "x".into() }),
    ]);
    assert!(r.find_lru_for_eviction().is_none());
}

#[test]
fn lru_picks_oldest_healthy_by_last_used() {
    let mut r = seed(vec![healthy("/tmp/a"), healthy("/tmp/b"), healthy("/tmp/c")]);
    let t0 = 100 * SEC;
    r.bump_last_used(&"/tmp/a".to_string(), t0);
    r.bump_last_used(&"/tmp/b".to_string(), t0 + SEC);
    r.bump_last_used(&"/tmp/c".to_string(), t0 + 2 * SEC);
    assert_eq!(r.find_lru_for_eviction(), Some("/tmp/a".to_string()));
}

#[test]
fn lru_skips_non_healthy_states() {
    let mut r = seed(vec![
        Project::new("/tmp/a".into(), "a".into(), ProjectState::Evicting),
        healthy("/tmp/b"),
        Project::new("/tmp/c".into(), "c".into(), ProjectState::Spawning),
    ]);
    let t0 = 100 * SEC;
    r.bump_last_used(&"/tmp/a".to_string(), t0);
    r.bump_last_used(&"/tmp/b".to_string(), t0 + SEC);
    assert_eq!(r.find_lru_for_eviction(), Some("/tmp/b".to_string()));
}

#[test]
fn sweep_noop_when_at_or_under_cap() {
    let mut r = seed((0..5).map(|i| healthy(&format!("/tmp/{i}"))).collect());
    assert!(run_one_sweep(&mut r, 5).is_empty());
}

#[test]
fn sweep_evicts_one_when_one_over_cap() {
    let mut r = seed((0..6).map(|i| healthy(&format!("/tmp/{i}"))).collect());
    let t0 = 100 * SEC;
    for i in 0..6u64 {
        r.bump_last_used(&format!("/tmp/{i}"), t0 + i * SEC);
    }
    assert_eq!(run_one_sweep(&mut r, 5), vec!["/tmp/0".to_string()]);
}

#[test]
fn sweep_evicts_down_to_cap_in_lru_order() {
    let mut r = seed((0..8).map(|i| healthy(&format!("/tmp/{i}"))).collect());
    let t0 = 100 * SEC;
    for i in 0..8u64 {
        r.bump_last_used(&format!("/tmp/{i}"), t0 + i * SEC);
    }
    let stopped = run_one_sweep(&mut r, 5);
    assert_eq!(stopped, vec!["/tmp/0".to_string(), "/tmp/1".to_string(), "/tmp/2".to_string()]);
    for i in 3..8 {
        let p = r.get(&format!("/tmp/{i}")).unwrap();
        assert!(matches!(p.state, ProjectState::Healthy { .. }));
    }
    assert_eq!(r.count_healthy(), 5);
}

#[test]
fn lru_ties_go_to_the_first_registered() {
    let mut r = seed(vec![healthy("/tmp/a"), healthy("/tmp/b")]);
    r.bump_last_used(&"/tmp/a".to_string(), 7);
    r.bump_last_used(&"/tmp/b".to_string(), 7);
    assert_eq!(r.find_lru_for_eviction(), Some("/tmp/a".to_string()));
}
