use beansd::beans_daemon::project_key::{marker_file, next_candidate};
use beansd::beansd::health::{after_probe, first_probe, PollNext, ProbeOutcome};
use beansd::beansd::spawner::{after_wait, KillError, KillNext, KillPhase, WaitOutcome};
use beansd::paths::{file_name_or_empty, join_relative, parent_dir, segments_of};

#[test]
fn segments_skip_empty_and_dot_pieces() {
    assert_eq!(segments_of("/a//b/./c/"), vec!["a".to_string(), "b".into(), "c".into()]);
    assert_eq!(segments_of("/"), Vec::<String>::new());
    assert_eq!(segments_of("x/../y"), vec!["x".to_string(), "..".into(), "y".into()]);
}

#[test]
fn file_name_is_the_last_segment() {
    assert_eq!(file_name_or_empty(&"/home/jo/proj".to_string()), "proj");
    assert_eq!(file_name_or_empty(&"/home/jo/proj/".to_string()), "proj");
    assert_eq!(file_name_or_empty(&"/".to_string()), "");
    assert_eq!(file_name_or_empty(&"/a/..".to_string()), "");
}

#[test]
fn walking_up_reaches_the_root() {
    let mut dir = "/a/b/c".to_string();
    let mut seen = vec![dir.clone()];
    while let Some(p) = next_candidate(&dir) {
        seen.push(p.clone());
        dir = p;
    }
    assert_eq!(seen, vec!["/a/b/c".to_string(), "/a/b".into(), "/a".into(), "/".into()]);
    assert_eq!(parent_dir(&"/".to_string()), None);
}

#[test]
fn marker_file_is_joined_below_the_directory() {
    assert_eq!(marker_file(&"/a/b".to_string()), "/a/b/.beans.yml");
    assert_eq!(marker_file(&"/".to_string()), "/.beans.yml");
    assert_eq!(join_relative(&String::new(), "x"), "x");
}

#[test]
fn health_polling_decisions() {
    assert!(!first_probe(0));
    assert!(first_probe(3));
    assert_eq!(after_probe(1, 3, ProbeOutcome::Success), PollNext::Healthy);
    assert_eq!(after_probe(1, 3, ProbeOutcome::TimedOut), PollNext::Probe);
    assert_eq!(after_probe(3, 3, ProbeOutcome::TimedOut), PollNext::GiveUp);
    assert_eq!(after_probe(2, 3, ProbeOutcome::NotReady), PollNext::SleepThenProbe);
    assert_eq!(after_probe(3, 3, ProbeOutcome::NotReady), PollNext::SleepThenGiveUp);
}

#[test]
fn kill_escalates_from_sigterm_to_sigkill() {
    assert_eq!(after_wait(KillPhase::Term, WaitOutcome::Exited), KillNext::Done);
    assert_eq!(after_wait(KillPhase::Term, WaitOutcome::TimedOut), KillNext::SendKill);
    let next = after_wait(KillPhase::Kill, WaitOutcome::TimedOut);
    assert_eq!(next, KillNext::Fail { error: KillError::TimedOut });
    assert_eq!(KillError::TimedOut.message(), "process did not exit in time");
    assert_eq!(
        after_wait(KillPhase::Kill, WaitOutcome::Failed { cause: "ECHILD".into() }),
        KillNext::Fail { error: KillError::Wait { cause: "ECHILD".into() } }
    );
}
