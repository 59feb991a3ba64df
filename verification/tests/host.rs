use openbrief::agent::{AgentEvent, AuthMethodInfo, RuntimeState};
use openbrief::host::{
    agent_message_id, expect_agent_status, map_agent_response, passthrough_event, process_for_state, runtime_reusable,
    sign_in_status, sign_in_target, start_step, turn_finished_events, AgentHostResponse, LaunchOutcome, MessageTracker,
    StartAction, StartEvent, StartStage,
};
use openbrief::protocol::{
    AgentStatus, AuthMethodView, AuthenticationStatus, AvailabilityStatus, ControlResponse, DaemonEvent, ProcessStatus,
    RuntimeDescriptor, RuntimeSource,
};
use openbrief::runtime::runtime_spec;

fn codex_runtime() -> RuntimeDescriptor {
    RuntimeDescriptor {
        provider_id: "codex".into(),
        label: "Codex".into(),
        source: RuntimeSource::Packaged,
        version: Some("1.1.7".into()),
        path: "/opt/codex-acp".into(),
    }
}

fn methods() -> Vec<AuthMethodInfo> {
    vec![
        AuthMethodInfo { id: "api-key".into(), name: "API key".into() },
        AuthMethodInfo { id: "ChatGPT".into(), name: "ChatGPT".into() },
    ]
}

#[test]
fn running_runtime_is_kept_only_for_its_provider() {
    let status = AgentStatus {
        availability: AvailabilityStatus::Available,
        authentication: AuthenticationStatus::Authenticated,
        process: ProcessStatus::Ready,
        runtime: Some(codex_runtime()),
    };
    assert!(runtime_reusable(true, &status, "codex"));
    assert!(!runtime_reusable(true, &status, "pi"));
    assert!(!runtime_reusable(false, &status, "codex"));
}

#[test]
fn sign_in_offers_preferred_methods_or_manual_instructions() {
    let codex = runtime_spec("codex").unwrap();
    let status = sign_in_status(&codex, "login needed", methods(), codex_runtime());
    match status.authentication {
        AuthenticationStatus::Required { methods } => assert_eq!(methods[0].id, "ChatGPT"),
        other => panic!("unexpected {other:?}"),
    }
    let pi = runtime_spec("pi").unwrap();
    let status = sign_in_status(&pi, "login needed", methods(), codex_runtime());
    assert_eq!(
        status.process,
        ProcessStatus::Failed {
            message: "login needed. Piのmodel providerをterminalで設定してからopenbriefdを再起動してください".into()
        }
    );
}

#[test]
fn sign_in_requires_an_advertised_method() {
    let mut status = AgentStatus {
        availability: AvailabilityStatus::Available,
        authentication: AuthenticationStatus::Required {
            methods: vec![AuthMethodView { id: "chatgpt".into(), name: "ChatGPT".into() }],
        },
        process: ProcessStatus::Stopped,
        runtime: None,
    };
    assert_eq!(sign_in_target(&status, "chatgpt").unwrap_err(), "ACP runtimeが見つかっていません");
    status.runtime = Some(codex_runtime());
    assert!(sign_in_target(&status, "chatgpt").is_ok());
    assert_eq!(sign_in_target(&status, "api-key").unwrap_err(), "Codex ACPが広告していない認証方法です");
    status.authentication = AuthenticationStatus::Authenticated;
    assert_eq!(sign_in_target(&status, "chatgpt").unwrap_err(), "Codex ACPは認証待ちではありません");
}

#[test]
fn agent_events_become_daemon_events() {
    assert_eq!(agent_message_id(Some("42")), "agent-42");
    assert_eq!(agent_message_id(None), "agent-current");
    let status = AgentStatus {
        availability: AvailabilityStatus::Available,
        authentication: AuthenticationStatus::Unknown,
        process: ProcessStatus::Ready,
        runtime: None,
    };
    assert_eq!(
        process_for_state(RuntimeState::Failed, &status),
        Some(ProcessStatus::Failed { message: "Agent ACPが停止しました".into() })
    );
    assert_eq!(process_for_state(RuntimeState::Stopping, &status), None);

    let mut tracker = MessageTracker::new();
    let first = tracker.text_delta("agent-1".into(), "Hel".into());
    assert_eq!(first.len(), 2);
    assert_eq!(first[0], DaemonEvent::MessageStarted { id: "agent-1".into(), role: "agent".into() });
    let second = tracker.text_delta("agent-1".into(), "lo".into());
    assert_eq!(second, vec![DaemonEvent::MessageDelta { id: "agent-1".into(), text: "lo".into() }]);

    let closing = turn_finished_events("agent-1".into(), None, None);
    assert_eq!(closing, vec![DaemonEvent::MessageFinished { id: "agent-1".into() }, DaemonEvent::TurnFinished]);
    assert_eq!(
        passthrough_event(AgentEvent::Error { message: "x".into() }),
        Some(DaemonEvent::Error { message: "x".into() })
    );
    assert_eq!(passthrough_event(AgentEvent::TurnFinished), None);
}

#[test]
fn host_answers_map_to_control_answers() {
    assert_eq!(
        map_agent_response(Ok(AgentHostResponse::TurnStarted { id: "t".into() })),
        Ok(ControlResponse::Acknowledged)
    );
    assert_eq!(map_agent_response(Err("down".into())), Err("down".to_string()));
    let error = expect_agent_status(AgentHostResponse::Acknowledged).unwrap_err();
    assert_eq!(error.status, 500);
    assert_eq!(error.body.code, "internal_error");
}

fn idle_status() -> AgentStatus {
    AgentStatus {
        availability: AvailabilityStatus::Checking,
        authentication: AuthenticationStatus::Unknown,
        process: ProcessStatus::Stopped,
        runtime: None,
    }
}

#[test]
fn a_start_publishes_checking_then_starting_then_ready() {
    let spec = runtime_spec("codex").unwrap();
    let request = StartEvent::Requested { held: true, running: false, current: idle_status(), provider: "codex".into() };
    let (stage, action) = start_step(StartStage::Idle, request);
    match action {
        StartAction::Prepare { stop_held, publish } => {
            assert!(stop_held);
            assert_eq!(publish, idle_status());
        }
        other => panic!("unexpected action {other:?}"),
    }
    let (stage, action) = start_step(stage, StartEvent::Prepared(Ok((spec, codex_runtime()))));
    match action {
        StartAction::Launch(publish) => {
            assert_eq!(publish.availability, AvailabilityStatus::Available);
            assert_eq!(publish.process, ProcessStatus::Starting);
            assert_eq!(publish.runtime, Some(codex_runtime()));
        }
        other => panic!("unexpected action {other:?}"),
    }
    let (stage, action) = start_step(stage, StartEvent::Launched(LaunchOutcome::Ready));
    assert!(matches!(stage, StartStage::Idle));
    match action {
        StartAction::Finish { status, keep_runtime } => {
            assert!(keep_runtime);
            assert_eq!(status.authentication, AuthenticationStatus::Authenticated);
            assert_eq!(status.process, ProcessStatus::Ready);
            assert_eq!(status.runtime, Some(codex_runtime()));
        }
        other => panic!("unexpected action {other:?}"),
    }
}

#[test]
fn a_start_keeps_the_runtime_that_runs_for_the_provider() {
    let mut current = idle_status();
    current.runtime = Some(codex_runtime());
    let request = StartEvent::Requested { held: true, running: true, current: current.clone(), provider: "codex".into() };
    let (stage, action) = start_step(StartStage::Idle, request);
    assert!(matches!(stage, StartStage::Idle));
    assert!(matches!(action, StartAction::Keep(status) if status == current));
    let request = StartEvent::Requested { held: true, running: true, current, provider: "pi".into() };
    let (stage, action) = start_step(StartStage::Idle, request);
    assert!(matches!(stage, StartStage::Preparing));
    assert!(matches!(action, StartAction::Prepare { stop_held: true, .. }));
}

#[test]
fn a_start_ends_with_the_search_failure_or_the_launch_failure() {
    let spec = runtime_spec("codex").unwrap();
    let missing = AgentStatus {
        availability: AvailabilityStatus::Missing { message: "not found".into() },
        authentication: AuthenticationStatus::Unknown,
        process: ProcessStatus::Failed { message: "not found".into() },
        runtime: None,
    };
    let (stage, action) = start_step(StartStage::Preparing, StartEvent::Prepared(Err(missing.clone())));
    assert!(matches!(stage, StartStage::Idle));
    assert!(matches!(action, StartAction::Finish { status, keep_runtime: false } if status == missing));

    let launching = StartStage::Launching { spec, runtime: codex_runtime() };
    let outcome = LaunchOutcome::SessionUnavailable { message: "no session".into(), methods: Vec::new(), text: "session unavailable: no session".into() };
    let (_, action) = start_step(launching, StartEvent::Launched(outcome));
    match action {
        StartAction::Finish { status, keep_runtime } => {
            assert!(!keep_runtime);
            assert_eq!(status.process, ProcessStatus::Failed { message: "session unavailable: no session".into() });
            assert_eq!(status.runtime, Some(codex_runtime()));
        }
        other => panic!("unexpected action {other:?}"),
    }

    let launching = StartStage::Launching { spec, runtime: codex_runtime() };
    let outcome = LaunchOutcome::SessionUnavailable { message: "no session".into(), methods: methods(), text: "ignored".into() };
    let (_, action) = start_step(launching, StartEvent::Launched(outcome));
    match action {
        StartAction::Finish { status, keep_runtime } => {
            assert!(!keep_runtime);
            assert_eq!(status.process, ProcessStatus::Stopped);
            match status.authentication {
                AuthenticationStatus::Required { methods } => {
                    assert_eq!(methods[0].id, "ChatGPT");
                    assert_eq!(methods[1].id, "api-key");
                }
                other => panic!("unexpected authentication {other:?}"),
            }
        }
        other => panic!("unexpected action {other:?}"),
    }

    let launching = StartStage::Launching { spec, runtime: codex_runtime() };
    let (_, action) = start_step(launching, StartEvent::Launched(LaunchOutcome::Failed("crashed".into())));
    assert!(matches!(action, StartAction::Finish { status, keep_runtime: false }
        if status.process == ProcessStatus::Failed { message: "crashed".into() }));
}
