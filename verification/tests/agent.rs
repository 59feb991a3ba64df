use openbrief::agent::{is_proposal_tool_title, select_permission_option, AgentConfig, AgentError, McpServerConfig, PermissionKind};
use std::time::Duration;

#[test]
fn requires_explicit_paths() {
    let config = AgentConfig {
        executable: "codex-acp".into(),
        args: Vec::new(),
        working_directory: "/tmp".into(),
        mcp_server: None,
        startup_timeout: Duration::from_secs(1),
        turn_timeout: Duration::from_secs(1),
    };
    assert!(matches!(config.validate(), Err(AgentError::ExecutablePathRequired)));
}

#[test]
fn proposal_tool_matching_does_not_inspect_arbitrary_arguments() {
    assert!(is_proposal_tool_title("Call brief_propose"));
    assert!(is_proposal_tool_title("triage_propose"));
    assert!(!is_proposal_tool_title("shell"));
    assert!(!is_proposal_tool_title("shell with argument saying brief_propose_extra"));
}

#[test]
fn relative_working_directory_and_mcp_executable_are_refused() {
    let mut config = AgentConfig {
        executable: "/usr/bin/codex-acp".into(),
        args: Vec::new(),
        working_directory: "work".into(),
        mcp_server: None,
        startup_timeout: Duration::from_secs(1),
        turn_timeout: Duration::from_secs(1),
    };
    assert_eq!(config.validate(), Err(AgentError::WorkingDirectoryMustBeAbsolute));
    config.working_directory = "/tmp".into();
    config.mcp_server = Some(McpServerConfig { executable: "openbrief".into(), args: Vec::new() });
    assert_eq!(config.validate(), Err(AgentError::McpExecutablePathRequired));
    config.mcp_server = Some(McpServerConfig { executable: "/usr/bin/openbrief".into(), args: Vec::new() });
    assert_eq!(config.validate(), Ok(()));
}

#[test]
fn only_proposal_tools_are_allowed_once() {
    let kinds = vec![PermissionKind::AllowAlways, PermissionKind::AllowOnce, PermissionKind::RejectOnce];
    assert_eq!(select_permission_option(true, &kinds), Some(1));
    assert_eq!(select_permission_option(false, &kinds), Some(2));
    assert_eq!(select_permission_option(false, &vec![PermissionKind::AllowOnce]), None);
    assert!(!is_proposal_tool_title("mcp__openbrief__triage_propose"));
    assert!(is_proposal_tool_title("openbrief/triage_propose(args)"));
    assert!(!is_proposal_tool_title("xbrief_propose"));
}
