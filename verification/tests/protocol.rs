use openbrief::protocol::{
    disabled_collector_status, AgentStatus, AuthMethodView, AuthenticationStatus, AvailabilityStatus, DaemonEvent,
    ProcessStatus, RecordingStatus, CONTROL_PROTOCOL_VERSION,
};
use openbrief::runtime::{checking_agent_status, failed_agent_status, missing_agent_status, unsupported_provider_status};

#[test]
fn copies_keep_every_field() {
    let status = AgentStatus {
        availability: AvailabilityStatus::Available,
        authentication: AuthenticationStatus::Required {
            methods: vec![AuthMethodView { id: "chatgpt".into(), name: "ChatGPT".into() }],
        },
        process: ProcessStatus::Stopped,
        runtime: None,
    };
    let event = DaemonEvent::AgentStatusChanged { status: status.clone() };
    assert_eq!(event.copy(), event);
    assert_eq!(status.copy(), status);
}

#[test]
fn status_builders_describe_the_agent() {
    assert_eq!(checking_agent_status().availability, AvailabilityStatus::Checking);
    assert_eq!(
        missing_agent_status("gone".into()).availability,
        AvailabilityStatus::Missing { message: "gone".into() }
    );
    let failed = failed_agent_status("boom".into(), None);
    assert_eq!(failed.process, ProcessStatus::Failed { message: "boom".into() });
    assert_eq!(failed.availability, AvailabilityStatus::Missing { message: "boom".into() });
    assert_eq!(
        unsupported_provider_status("gemini").availability,
        AvailabilityStatus::Missing { message: "未対応のACP providerです: gemini".into() }
    );
    let idle = disabled_collector_status();
    assert_eq!(idle.recording, RecordingStatus::Disabled);
    assert_eq!(idle.control_protocol_version, CONTROL_PROTOCOL_VERSION);
    assert!(!idle.source_available);
}
