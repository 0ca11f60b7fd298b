use beansd::config::{heartbeat_secs, launcher_port, log_level, lru_cap, Config, FileMeta};

fn config_with(path: &str) -> Config {
    Config {
        launcher_port: 9000,
        lru_cap: 8,
        heartbeat_secs: 15,
        log_level: "info".into(),
        beans_serve_path: path.into(),
    }
}

#[test]
fn defaults_match_the_documented_values() {
    assert_eq!(launcher_port(), 9000);
    assert_eq!(lru_cap(), 8);
    assert_eq!(heartbeat_secs(), 15);
    assert_eq!(log_level(), "info");
}

#[test]
fn validate_passes_for_executable() {
    let cfg = config_with("/tmp/fake-beans-serve");
    cfg.validate(Ok(FileMeta { is_file: true, mode: 0o755 })).unwrap();
}

#[test]
fn validate_fails_for_missing_file() {
    let cfg = config_with("/no/such/binary");
    let err = cfg.validate(Err("No such file or directory (os error 2)".into())).unwrap_err();
    assert!(err.message().contains("beans_serve_path"));
    assert!(err.message().contains("/no/such/binary"));
}

#[test]
fn validate_fails_for_non_executable() {
    let cfg = config_with("/tmp/not-executable");
    let err = cfg.validate(Ok(FileMeta { is_file: true, mode: 0o644 })).unwrap_err();
    assert!(err.message().contains("not executable"));
}

#[test]
fn validate_fails_for_directory() {
    let cfg = config_with("/tmp");
    let err = cfg.validate(Ok(FileMeta { is_file: false, mode: 0o755 })).unwrap_err();
    assert_eq!(err.message(), "beans_serve_path /tmp is not a file");
}
