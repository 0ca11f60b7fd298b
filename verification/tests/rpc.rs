use beansd::beans_daemon::protocol::Response;
use beansd::rpc::client::{interpret_reply, Failure, Op, Reply, RpcError};
use beansd::rpc::socket::{bind_step, default_socket_path, in_use_message, socket_base_var, BindStep};

#[test]
fn client_ls_round_trip() {
    let data: serde_json::Value = serde_json::from_str("{\"projects\":[]}").unwrap();
    let line = "{\"ok\":true,\"data\":{\"projects\":[]}}\n";
    let resp = interpret_reply(Op::Ls, line.len(), Ok(Reply::Success { data })).unwrap();
    assert_eq!(resp["projects"].as_array().unwrap().len(), 0);
}

#[test]
fn empty_response_maps_to_friendly_error() {
    let err = interpret_reply(Op::Ls, 0, Err("EOF".into())).unwrap_err();
    assert!(err.message().contains("daemon closed connection without responding"));
}

#[test]
fn malformed_response_maps_to_friendly_error() {
    let cause = serde_json::from_str::<serde_json::Value>("not json\n").unwrap_err().to_string();
    let err = interpret_reply(Op::Ls, "not json\n".len(), Err(cause)).unwrap_err();
    assert!(err.message().contains("malformed response from daemon"));
}

#[test]
fn wire_error_propagates_with_op_context() {
    let err = interpret_reply(Op::Start, 40, Ok(Reply::Failure { error: "unknown project: /x".into() })).unwrap_err();
    assert!(err.message().contains("rpc start"));
    assert!(err.message().contains("unknown project"));
    assert_eq!(err.message(), "rpc start: unknown project: /x");
}

#[test]
fn handler_err_surfaces_with_rpc_context() {
    let e = RpcError { op: Op::Stop, failure: Failure::Remote { error: "unknown project: /missing".into() } };
    assert!(e.message().contains("rpc stop"));
    assert!(e.message().contains("unknown project"));
}

#[test]
fn default_socket_path_dev_differs_from_prod() {
    for macos in [false, true] {
        let base = if macos { "/tmp/h" } else { "/tmp/r" };
        let prod = default_socket_path(Some(base.to_string()), false, macos).unwrap();
        let dev = default_socket_path(Some(base.to_string()), true, macos).unwrap();
        assert_ne!(prod, dev);
        assert!(dev.rsplit('/').next().unwrap().contains("dev"));
        assert!(!prod.rsplit('/').next().unwrap().contains("dev"));
    }
}

#[test]
fn socket_paths_per_platform() {
    assert_eq!(default_socket_path(Some("/run/user/1".into()), false, false).unwrap(), "/run/user/1/beans-daemon.sock");
    assert_eq!(
        default_socket_path(Some("/Users/jo/".into()), true, true).unwrap(),
        "/Users/jo/Library/Caches/beans-daemon/sock-dev"
    );
    let err = default_socket_path(None, false, false).unwrap_err();
    assert_eq!(err.message(), "XDG_RUNTIME_DIR unset");
    assert_eq!(socket_base_var(true), "HOME");
}

#[test]
fn bind_decisions() {
    assert_eq!(bind_step(false, false), BindStep::Bind);
    assert_eq!(bind_step(true, false), BindStep::UnlinkThenBind);
    assert_eq!(bind_step(true, true), BindStep::Refuse);
    assert!(in_use_message(&"/tmp/sock".to_string()).contains("already in use"));
}

#[test]
fn ok_response_serialises_with_ok_true() {
    let data: serde_json::Value = serde_json::from_str("{\"x\":1}").unwrap();
    match Response::ok(data) {
        Response::Success { ok, data } => {
            assert!(ok);
            assert!(serde_json::to_string(&data).unwrap().contains("\"x\":1"));
        },
        Response::Failure { .. } => panic!("expected success"),
    }
}

#[test]
fn err_response_serialises_with_ok_false() {
    match Response::err("boom".into()) {
        Response::Failure { ok, error } => {
            assert!(!ok);
            assert_eq!(error, "boom");
        },
        Response::Success { .. } => panic!("expected failure"),
    }
}

#[test]
fn bad_request_names_the_cause() {
    match Response::bad_request(&"expected value at line 1 column 1".to_string()) {
        Response::Failure { ok, error } => {
            assert!(!ok);
            assert!(error.starts_with("bad request: "));
        },
        Response::Success { .. } => panic!("expected failure"),
    }
}
