//! The decisions of the daemon's agent host: when a running runtime is
//! kept, what status each outcome of starting or signing in reports, and
//! which daemon events an agent event becomes.
use vstd::prelude::*;

use crate::agent::{AgentEvent, AuthMethodInfo, RuntimeState};
use crate::protocol::{
    ControlRequest, ControlResponse, same_agent_status,
    same_brief, same_triage, AgentStatus, AuthMethodView, AuthenticationStatus, AvailabilityStatus, BriefView,
    DaemonEvent, ProcessStatus, RuntimeDescriptor, TriageProposalView,
};
use crate::runtime::{is_codex, is_pi, methods_where, runtime_spec, AcpRuntimeSpec};
use crate::text::concat;

verus! {

/// Whether the running runtime is kept: it still runs and serves the
/// configured provider.
pub fn runtime_reusable(runtime_running: bool, current: &AgentStatus, provider: &str) -> (r: bool)
    ensures
        r == (runtime_running && match current.runtime {
            Some(d) => d.provider_id@ == provider@,
            None => false,
        }),
{
    runtime_running && crate::runtime::runtime_matches_provider(
        match &current.runtime {
            Some(d) => Some(d),
            None => None,
        },
        provider,
    )
}

/// The status while the runtime starts.
pub fn starting_status(runtime: RuntimeDescriptor) -> (r: AgentStatus)
    ensures
        r.availability == AvailabilityStatus::Available,
        r.authentication == AuthenticationStatus::Unknown,
        r.process == ProcessStatus::Starting,
        r.runtime == Some(runtime),
{
    AgentStatus {
        availability: AvailabilityStatus::Available,
        authentication: AuthenticationStatus::Unknown,
        process: ProcessStatus::Starting,
        runtime: Some(runtime),
    }
}

/// The status once the runtime is ready with a session.
pub fn ready_status(runtime: RuntimeDescriptor) -> (r: AgentStatus)
    ensures
        r.availability == AvailabilityStatus::Available,
        r.authentication == AuthenticationStatus::Authenticated,
        r.process == ProcessStatus::Ready,
        r.runtime == Some(runtime),
{
    AgentStatus {
        availability: AvailabilityStatus::Available,
        authentication: AuthenticationStatus::Authenticated,
        process: ProcessStatus::Ready,
        runtime: Some(runtime),
    }
}

/// The status while the user signs in.
pub fn authenticating_status(runtime: RuntimeDescriptor) -> (r: AgentStatus)
    ensures
        r.availability == AvailabilityStatus::Available,
        r.authentication == AuthenticationStatus::Authenticating,
        r.process == ProcessStatus::Stopped,
        r.runtime == Some(runtime),
{
    AgentStatus {
        availability: AvailabilityStatus::Available,
        authentication: AuthenticationStatus::Authenticating,
        process: ProcessStatus::Stopped,
        runtime: Some(runtime),
    }
}

/// The status after the runtime was stopped: as before, with the process
/// stopped.
pub fn stopped_status(current: AgentStatus) -> (r: AgentStatus)
    ensures
        r.availability == current.availability,
        r.authentication == current.authentication,
        r.process == ProcessStatus::Stopped,
        r.runtime == current.runtime,
{
    AgentStatus { process: ProcessStatus::Stopped, ..current }
}

/// The status when the session needs a sign-in that the runtime advertised
/// methods for: with manual instructions the runtime is reported failed
/// with them; otherwise the methods are offered, preferred ones first.
pub fn sign_in_status(spec: &AcpRuntimeSpec, message: &str, auth_methods: Vec<AuthMethodInfo>, runtime: RuntimeDescriptor) -> (r: AgentStatus)
    ensures
        r.availability == AvailabilityStatus::Available,
        r.runtime == Some(runtime),
        match spec.manual_auth_instructions {
            Some(m) => r.authentication == AuthenticationStatus::Unknown
                && (r.process matches ProcessStatus::Failed { message: f } && f@ == message@ + ". "@ + m@),
            None => r.process == ProcessStatus::Stopped
                && (r.authentication matches AuthenticationStatus::Required { methods }
                && methods@.len() == auth_methods@.len()
                && forall|i: int| 0 <= i < methods@.len() ==> {
                    let ordered = match spec.preferred_auth_method_hint {
                        Some(h) => methods_where(auth_methods@, h@, true) + methods_where(auth_methods@, h@, false),
                        None => auth_methods@,
                    };
                    #[trigger] methods@[i].id == ordered[i].id && methods@[i].name == ordered[i].name
                }),
        },
{
    if let Some(instructions) = spec.manual_auth_instructions {
        let a = concat(message, ". ");
        let text = concat(a.as_str(), instructions);
        return crate::runtime::failed_agent_status(text, Some(runtime));
    }
    let mut ordered = auth_methods;
    let ghost initial = ordered@;
    spec.prioritize_auth_methods(&mut ordered);
    let ghost arranged = ordered@;
    proof {
        assert(ordered@.len() == initial.len()) by {
            if let Some(h) = spec.preferred_auth_method_hint {
                lemma_partition_len(initial, h@);
            }
        }
    }
    let mut views: Vec<AuthMethodView> = Vec::new();
    let mut k: usize = 0;
    while k < ordered.len()
        invariant
            k <= ordered@.len(),
            ordered@ == arranged,
            views@.len() == k,
            forall|i: int| 0 <= i < k ==> #[trigger] views@[i].id == arranged[i].id && views@[i].name == arranged[i].name,
        decreases ordered@.len() - k,
    {
        views.push(AuthMethodView { id: ordered[k].id.clone(), name: ordered[k].name.clone() });
        k = k + 1;
    }
    AgentStatus {
        availability: AvailabilityStatus::Available,
        authentication: AuthenticationStatus::Required { methods: views },
        process: ProcessStatus::Stopped,
        runtime: Some(runtime),
    }
}

/// Where the start of the agent runtime stands between two awaits.
#[derive(Debug)]
pub enum StartStage {
    /// No start is under way.
    Idle,
    /// The checking status is published and the runtime is being looked for.
    Preparing,
    /// The starting status is published and the runtime found is launching.
    Launching { spec: AcpRuntimeSpec, runtime: RuntimeDescriptor },
}

/// How launching the runtime ended.
#[derive(Debug)]
pub enum LaunchOutcome {
    /// The runtime runs with a session.
    Ready,
    /// The runtime runs but opened no session, advertising these sign-in
    /// methods; `text` is the whole failure as the runtime reported it.
    SessionUnavailable { message: String, methods: Vec<AuthMethodInfo>, text: String },
    /// The launch failed, as the text says.
    Failed(String),
}

/// What happened since the last step of a start.
#[derive(Debug)]
pub enum StartEvent {
    /// A start was asked for: whether a runtime is held and whether it still
    /// runs, the status published, and the configured provider.
    Requested { held: bool, running: bool, current: AgentStatus, provider: String },
    /// The runtime was looked for: its catalog entry and descriptor, or the
    /// status that says why it cannot start.
    Prepared(Result<(AcpRuntimeSpec, RuntimeDescriptor), AgentStatus>),
    /// The runtime was launched.
    Launched(LaunchOutcome),
}

/// What the host does next in a start.
#[derive(Debug)]
pub enum StartAction {
    /// Keep the runtime that runs; the answer is the status already
    /// published, and nothing is published.
    Keep(AgentStatus),
    /// Stop the runtime held when `stop_held`, publish the status, then look
    /// for the runtime.
    Prepare { stop_held: bool, publish: AgentStatus },
    /// Publish the status, then launch the runtime.
    Launch(AgentStatus),
    /// Publish the status, which is the answer; the launched runtime is kept
    /// only when `keep_runtime`.
    Finish { status: AgentStatus, keep_runtime: bool },
}

/// Whether a start in a stage can receive an event: a request when idle,
/// the outcome of the search while preparing, the launch's while launching.
pub open spec fn start_event_expected(stage: StartStage, event: StartEvent) -> bool {
    match event {
        StartEvent::Requested { .. } => stage is Idle,
        StartEvent::Prepared(_) => stage is Preparing,
        StartEvent::Launched(_) => stage is Launching,
    }
}

/// The status while the runtime is looked for.
pub open spec fn spec_checking_status() -> AgentStatus {
    AgentStatus {
        availability: AvailabilityStatus::Checking,
        authentication: AuthenticationStatus::Unknown,
        process: ProcessStatus::Stopped,
        runtime: None,
    }
}

/// The status of a runtime in a process state, available and not signed in
/// or signed in as `authentication` says.
pub open spec fn spec_runtime_status(runtime: RuntimeDescriptor, authentication: AuthenticationStatus, process: ProcessStatus) -> AgentStatus {
    AgentStatus { availability: AvailabilityStatus::Available, authentication, process, runtime: Some(runtime) }
}

/// One step of starting the agent runtime. A request is answered by the
/// runtime that still runs for the configured provider; otherwise the held
/// runtime is stopped, the checking status published and the runtime looked
/// for. A runtime found is launched under the starting status; one not found
/// ends the start with the status that says why. The launch ends it with the
/// ready status (keeping the runtime), with the sign-in status when the
/// runtime advertised sign-in methods, or with the failure.
pub fn start_step(stage: StartStage, event: StartEvent) -> (r: (StartStage, StartAction))
    requires
        start_event_expected(stage, event),
    ensures
        match event {
            StartEvent::Requested { held, running, current, provider } => {
                if running && (current.runtime matches Some(d) && d.provider_id@ == provider@) {
                    r.0 is Idle && r.1 == StartAction::Keep(current)
                } else {
                    r.0 is Preparing && r.1 == (StartAction::Prepare { stop_held: held, publish: spec_checking_status() })
                }
            },
            StartEvent::Prepared(Err(status)) => r.0 is Idle && r.1 == (StartAction::Finish { status, keep_runtime: false }),
            StartEvent::Prepared(Ok((spec, runtime))) => r.0 == (StartStage::Launching { spec, runtime })
                && r.1 == StartAction::Launch(spec_runtime_status(runtime, AuthenticationStatus::Unknown, ProcessStatus::Starting)),
            StartEvent::Launched(outcome) => r.0 is Idle && match stage {
                StartStage::Launching { spec, runtime } => match outcome {
                    LaunchOutcome::Ready => r.1 == (StartAction::Finish {
                        status: spec_runtime_status(runtime, AuthenticationStatus::Authenticated, ProcessStatus::Ready),
                        keep_runtime: true,
                    }),
                    LaunchOutcome::SessionUnavailable { message, methods, text } => if methods@.len() > 0 {
                        r.1 matches StartAction::Finish { status, keep_runtime } && !keep_runtime
                            && status.availability == AvailabilityStatus::Available
                            && status.runtime == Some(runtime)
                            && match spec.manual_auth_instructions {
                                Some(m) => status.authentication == AuthenticationStatus::Unknown
                                    && (status.process matches ProcessStatus::Failed { message: f } && f@ == message@ + ". "@ + m@),
                                None => status.process == ProcessStatus::Stopped
                                    && (status.authentication matches AuthenticationStatus::Required { methods: offered }
                                    && offered@.len() == methods@.len()
                                    && forall|i: int| 0 <= i < offered@.len() ==> {
                                        let ordered = match spec.preferred_auth_method_hint {
                                            Some(h) => methods_where(methods@, h@, true) + methods_where(methods@, h@, false),
                                            None => methods@,
                                        };
                                        #[trigger] offered@[i].id == ordered[i].id && offered@[i].name == ordered[i].name
                                    }),
                            }
                    } else {
                        r.1 == (StartAction::Finish {
                            status: spec_runtime_status(runtime, AuthenticationStatus::Unknown, ProcessStatus::Failed { message: text }),
                            keep_runtime: false,
                        })
                    },
                    LaunchOutcome::Failed(text) => r.1 == (StartAction::Finish {
                        status: spec_runtime_status(runtime, AuthenticationStatus::Unknown, ProcessStatus::Failed { message: text }),
                        keep_runtime: false,
                    }),
                },
                _ => false,
            },
        },
{
    match event {
        StartEvent::Requested { held, running, current, provider } => {
            if runtime_reusable(running, &current, provider.as_str()) {
                (StartStage::Idle, StartAction::Keep(current))
            } else {
                (StartStage::Preparing, StartAction::Prepare { stop_held: held, publish: crate::runtime::checking_agent_status() })
            }
        },
        StartEvent::Prepared(Err(status)) => (StartStage::Idle, StartAction::Finish { status, keep_runtime: false }),
        StartEvent::Prepared(Ok((spec, runtime))) => {
            let publish = starting_status(runtime.copy());
            (StartStage::Launching { spec, runtime }, StartAction::Launch(publish))
        },
        StartEvent::Launched(outcome) => {
            let (spec, runtime) = match stage {
                StartStage::Launching { spec, runtime } => (spec, runtime),
                _ => {
                    proof { assert(false); }
                    return (StartStage::Idle, StartAction::Keep(crate::runtime::checking_agent_status()));
                },
            };
            let status = match outcome {
                LaunchOutcome::Ready => {
                    return (StartStage::Idle, StartAction::Finish { status: ready_status(runtime), keep_runtime: true });
                },
                LaunchOutcome::SessionUnavailable { message, methods, text } => {
                    if methods.len() > 0 {
                        sign_in_status(&spec, message.as_str(), methods, runtime)
                    } else {
                        crate::runtime::failed_agent_status(text, Some(runtime))
                    }
                },
                LaunchOutcome::Failed(text) => crate::runtime::failed_agent_status(text, Some(runtime)),
            };
            (StartStage::Idle, StartAction::Finish { status, keep_runtime: false })
        },
    }
}

proof fn lemma_partition_len(ms: Seq<AuthMethodInfo>, hint: Seq<char>)
    ensures
        methods_where(ms, hint, true).len() + methods_where(ms, hint, false).len() == ms.len(),
    decreases ms.len(),
{
    if ms.len() > 0 {
        lemma_partition_len(ms.drop_last(), hint);
    }
}

/// Whether some advertised method has the identifier.
pub open spec fn advertises(methods: Seq<AuthMethodView>, method_id: Seq<char>) -> bool {
    exists|i: int| 0 <= i < methods.len() && methods[i].id@ == method_id
}

/// What a sign-in request is checked against: a runtime must be known, of
/// a provider in the catalog, waiting for a sign-in, with the method among
/// those it advertised. The runtime and its catalog entry, or the refusal.
pub fn sign_in_target(status: &AgentStatus, method_id: &str) -> (r: Result<(RuntimeDescriptor, AcpRuntimeSpec), String>)
    ensures
        match status.runtime {
            None => r matches Err(m) && m@ == "ACP runtimeが見つかっていません"@,
            Some(d) => if d.provider_id@ != "codex"@ && d.provider_id@ != "pi"@ {
                r matches Err(m) && m@ == "未対応のACP providerです: "@ + d.provider_id@
            } else {
                match status.authentication {
                    AuthenticationStatus::Required { methods } => if advertises(methods@, method_id@) {
                        r matches Ok((rd, spec)) && rd == d && spec.id@ == d.provider_id@
                            && (is_codex(spec) || is_pi(spec))
                    } else {
                        r matches Err(m) && m@ == d.label@ + " ACPが広告していない認証方法です"@
                    },
                    _ => r matches Err(m) && m@ == d.label@ + " ACPは認証待ちではありません"@,
                }
            },
        },
{
    let descriptor = match &status.runtime {
        Some(d) => d,
        None => return Err("ACP runtimeが見つかっていません".to_string()),
    };
    let spec = match runtime_spec(descriptor.provider_id.as_str()) {
        Some(s) => s,
        None => return Err(concat("未対応のACP providerです: ", descriptor.provider_id.as_str())),
    };
    let advertised = match &status.authentication {
        AuthenticationStatus::Required { methods } => methods,
        _ => return Err(concat(descriptor.label.as_str(), " ACPは認証待ちではありません")),
    };
    let mut k: usize = 0;
    while k < advertised.len()
        invariant
            k <= advertised@.len(),
            status.runtime == Some(*descriptor),
            status.authentication == (AuthenticationStatus::Required { methods: *advertised }),
            spec.id@ == descriptor.provider_id@,
            is_codex(spec) || is_pi(spec),
            descriptor.provider_id@ == "codex"@ || descriptor.provider_id@ == "pi"@,
            forall|i: int| 0 <= i < k ==> (#[trigger] advertised@[i]).id@ != method_id@,
        decreases advertised@.len() - k,
    {
        if crate::text::str_eq(advertised[k].id.as_str(), method_id) {
            return Ok((descriptor.copy(), spec));
        }
        k = k + 1;
    }
    Err(concat(descriptor.label.as_str(), " ACPが広告していない認証方法です"))
}

/// The identifier of the message a turn streams: `agent-` and the turn, or
/// `agent-current` outside a turn.
pub fn agent_message_id(turn_id: Option<&str>) -> (r: String)
    ensures
        r@ == match turn_id {
            Some(t) => "agent-"@ + t@,
            None => "agent-current"@,
        },
{
    match turn_id {
        Some(t) => concat("agent-", t),
        None => "agent-current".to_string(),
    }
}

/// The process status a runtime state reports; stopping reports nothing,
/// and a failure names the runtime (`Agent` when none is known).
pub fn process_for_state(state: RuntimeState, current: &AgentStatus) -> (r: Option<ProcessStatus>)
    ensures
        match state {
            RuntimeState::Stopped => r == Some(ProcessStatus::Stopped),
            RuntimeState::Starting => r == Some(ProcessStatus::Starting),
            RuntimeState::Ready => r == Some(ProcessStatus::Ready),
            RuntimeState::Busy => r == Some(ProcessStatus::Busy),
            RuntimeState::Stopping => r is None,
            RuntimeState::Failed => r matches Some(ProcessStatus::Failed { message }) && message@ == match current.runtime {
                Some(d) => d.label@ + " ACPが停止しました"@,
                None => "Agent ACPが停止しました"@,
            },
        },
{
    match state {
        RuntimeState::Stopped => Some(ProcessStatus::Stopped),
        RuntimeState::Starting => Some(ProcessStatus::Starting),
        RuntimeState::Ready => Some(ProcessStatus::Ready),
        RuntimeState::Busy => Some(ProcessStatus::Busy),
        RuntimeState::Stopping => None,
        RuntimeState::Failed => {
            let message = match &current.runtime {
                Some(d) => concat(d.label.as_str(), " ACPが停止しました"),
                None => "Agent ACPが停止しました".to_string(),
            };
            Some(ProcessStatus::Failed { message })
        },
    }
}

/// The messages whose start was announced.
#[derive(Debug, Clone)]
pub struct MessageTracker {
    started: Vec<String>,
}

impl MessageTracker {
    /// The identifiers of the announced messages.
    pub closed spec fn announced(&self) -> Seq<Seq<char>> {
        crate::attention::texts(self.started@)
    }

    /// A tracker that announced nothing.
    pub fn new() -> (r: MessageTracker)
        ensures
            r.announced().len() == 0,
    {
        MessageTracker { started: Vec::new() }
    }

    /// The events a streamed piece of text becomes: the message's start the
    /// first time it streams, then the piece.
    pub fn text_delta(&mut self, message_id: String, text: String) -> (r: Vec<DaemonEvent>)
        ensures
            crate::triage::listed(old(self).announced(), message_id@) ==> {
                &&& final(self).announced() == old(self).announced()
                &&& r@ == seq![DaemonEvent::MessageDelta { id: message_id, text }]
            },
            !crate::triage::listed(old(self).announced(), message_id@) ==> {
                &&& final(self).announced() == old(self).announced().push(message_id@)
                &&& r@.len() == 2
                &&& (r@[0] matches DaemonEvent::MessageStarted { id, role } && id == message_id && role@ == "agent"@)
                &&& r@[1] == (DaemonEvent::MessageDelta { id: message_id, text })
            },
    {
        let mut seen = false;
        let mut k: usize = 0;
        while k < self.started.len() && !seen
            invariant
                k <= self.started@.len(),
                seen ==> crate::triage::listed(crate::attention::texts(self.started@), message_id@),
                !seen ==> forall|i: int| 0 <= i < k ==> (#[trigger] self.started@[i])@ != message_id@,
            decreases self.started@.len() - k + if seen { 0int } else { 1int },
        {
            if crate::text::str_eq(self.started[k].as_str(), message_id.as_str()) {
                proof { assert(crate::attention::texts(self.started@)[k as int] == message_id@); }
                seen = true;
            } else {
                k = k + 1;
            }
        }
        let mut out: Vec<DaemonEvent> = Vec::new();
        if !seen {
            proof {
                if crate::triage::listed(old(self).announced(), message_id@) {
                    let i = choose|i: int| 0 <= i < old(self).announced().len() && old(self).announced()[i] == message_id@;
                    assert(self.started@[i]@ == message_id@);
                }
            }
            let ghost before = self.started@;
            self.started.push(message_id.clone());
            proof { assert(crate::attention::texts(self.started@) =~= crate::attention::texts(before).push(message_id@)); }
            out.push(DaemonEvent::MessageStarted { id: message_id.clone(), role: "agent".to_string() });
        }
        out.push(DaemonEvent::MessageDelta { id: message_id, text });
        out
    }
}

/// The events that close a turn: the message's end, the newest unconfirmed
/// proposal and the brief when they could be read, then the turn's end.
pub fn turn_finished_events(message_id: String, proposal: Option<TriageProposalView>, brief: Option<BriefView>) -> (r: Vec<DaemonEvent>)
    ensures
        r@.len() == 2 + (if proposal is Some { 1int } else { 0int }) + (if brief is Some { 1int } else { 0int }),
        r@[0] == (DaemonEvent::MessageFinished { id: message_id }),
        r@.last() == DaemonEvent::TurnFinished,
        proposal matches Some(p) ==> (r@[1] matches DaemonEvent::ProposalReceived { proposal: q } && q == p),
        brief matches Some(b) ==> (r@[r@.len() - 2] matches DaemonEvent::BriefChanged { brief: c } && c == b),
{
    let mut out: Vec<DaemonEvent> = Vec::new();
    out.push(DaemonEvent::MessageFinished { id: message_id });
    if let Some(p) = proposal {
        out.push(DaemonEvent::ProposalReceived { proposal: p });
    }
    if let Some(b) = brief {
        out.push(DaemonEvent::BriefChanged { brief: b });
    }
    out.push(DaemonEvent::TurnFinished);
    out
}

/// The daemon event an agent error becomes; tool calls and permission
/// requests become none.
pub fn passthrough_event(event: AgentEvent) -> (r: Option<DaemonEvent>)
    ensures
        match event {
            AgentEvent::Error { message } => r == Some(DaemonEvent::Error { message }),
            AgentEvent::ToolCall { .. } | AgentEvent::PermissionRequested { .. } => r is None,
            _ => r is None,
        },
{
    match event {
        AgentEvent::Error { message } => Some(DaemonEvent::Error { message }),
        _ => None,
    }
}

/// A request to the agent host.
#[derive(Debug, Clone, PartialEq, Eq)]
pub enum AgentHostRequest {
    Status,
    Start,
    Authenticate { method_id: String },
    Prompt { text: String },
    Cancel,
    Stop,
    Shutdown,
}

/// The agent host's answer.
#[derive(Debug, Clone, PartialEq, Eq)]
pub enum AgentHostResponse {
    Status(AgentStatus),
    TurnStarted { id: String },
    Acknowledged,
}

/// The agent host request a control request stands for, when it is one of
/// the agent requests.
pub fn host_request_for(request: &ControlRequest) -> (r: Option<AgentHostRequest>)
    ensures
        match *request {
            ControlRequest::AgentStatus => r == Some(AgentHostRequest::Status),
            ControlRequest::AgentStart => r == Some(AgentHostRequest::Start),
            ControlRequest::AgentAuthenticate { method_id } => r == Some(AgentHostRequest::Authenticate { method_id }),
            ControlRequest::AgentPrompt { text } => r == Some(AgentHostRequest::Prompt { text }),
            ControlRequest::AgentCancel => r == Some(AgentHostRequest::Cancel),
            ControlRequest::AgentStop => r == Some(AgentHostRequest::Stop),
            _ => r is None,
        },
{
    match request {
        ControlRequest::AgentStatus => Some(AgentHostRequest::Status),
        ControlRequest::AgentStart => Some(AgentHostRequest::Start),
        ControlRequest::AgentAuthenticate { method_id } => Some(AgentHostRequest::Authenticate { method_id: method_id.clone() }),
        ControlRequest::AgentPrompt { text } => Some(AgentHostRequest::Prompt { text: text.clone() }),
        ControlRequest::AgentCancel => Some(AgentHostRequest::Cancel),
        ControlRequest::AgentStop => Some(AgentHostRequest::Stop),
        _ => None,
    }
}

/// The control answer for an agent host answer: a status is passed on, a
/// started turn or a plain success is acknowledged, a failure keeps its text.
pub fn map_agent_response(response: Result<AgentHostResponse, String>) -> (r: Result<ControlResponse, String>)
    ensures
        match response {
            Ok(AgentHostResponse::Status(s)) => r matches Ok(ControlResponse::AgentStatus(t)) && same_agent_status(t, s),
            Ok(_) => r == Ok::<ControlResponse, String>(ControlResponse::Acknowledged),
            Err(e) => r == Err::<ControlResponse, String>(e),
        },
{
    match response {
        Ok(AgentHostResponse::Status(s)) => {
            let copy = s.copy();
            Ok(ControlResponse::AgentStatus(copy))
        },
        Ok(_) => Ok(ControlResponse::Acknowledged),
        Err(e) => Err(e),
    }
}

/// The status a remote status request expects; anything else is an
/// internal error.
pub fn expect_agent_status(response: AgentHostResponse) -> (r: Result<AgentStatus, crate::remote::ApiError>)
    ensures
        match response {
            AgentHostResponse::Status(s) => r == Ok::<AgentStatus, crate::remote::ApiError>(s),
            _ => r matches Err(e) && crate::remote::plain_error(e, 500, "internal_error"@,
                "agent returned an unexpected response"@, false),
        },
{
    match response {
        AgentHostResponse::Status(s) => Ok(s),
        _ => Err(crate::remote::ApiError::internal("agent returned an unexpected response".to_string())),
    }
}

/// The control answer for a failed application request.
pub fn application_error_reply(message: String) -> (r: ControlResponse)
    ensures
        r matches ControlResponse::Error { code, message: m } && code@ == "application_error"@ && m == message,
{
    ControlResponse::Error { code: "application_error".to_string(), message }
}

} // verus!
