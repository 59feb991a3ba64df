use openbrief::protocol::ControlRequest;
use openbrief::service::{render_unit, request_timeout, AppPaths, PathsError, ServiceError};
use std::time::Duration;

#[test]
fn unit_runs_daemon_with_restrictive_umask() {
    let unit = render_unit("/tmp/open brief").expect("render unit");
    assert!(unit.contains("ExecStart=\"/tmp/open brief\""));
    assert!(!unit.contains(" watch"));
    assert!(unit.contains("UMask=0077"));
}

#[test]
fn unit_escapes_quotes_and_refuses_line_breaks() {
    let unit = render_unit("/tmp/a\"b\\c").unwrap();
    assert!(unit.contains("ExecStart=\"/tmp/a\\\"b\\\\c\""));
    assert_eq!(render_unit("/tmp/a\nb"), Err(ServiceError::InvalidExecutable));
}

#[test]
fn request_timeouts_follow_the_request() {
    assert_eq!(request_timeout(&ControlRequest::AgentAuthenticate { method_id: "x".into() }), Duration::from_secs(130));
    assert_eq!(request_timeout(&ControlRequest::AgentStart), Duration::from_secs(20));
    assert_eq!(request_timeout(&ControlRequest::Status), Duration::from_secs(5));
}

#[test]
fn paths_come_from_the_directories() {
    let paths = AppPaths::discover_from(
        Some(("/home/u/.config/openbrief".into(), "/home/u/.local/share/openbrief".into())),
        Some("/run/user/1000".into()),
        Some("/home/u".into()),
    )
    .unwrap();
    assert_eq!(paths.config_file, "/home/u/.config/openbrief/config.toml");
    assert_eq!(paths.control_socket, "/run/user/1000/openbrief/control.sock");
    assert_eq!(paths.systemd_unit, "/home/u/.config/systemd/user/openbrief.service");
    assert_eq!(
        AppPaths::discover_from(Some(("a".into(), "b".into())), None, Some("/h".into())),
        Err(PathsError::RuntimeDirectoryUnavailable)
    );
}
