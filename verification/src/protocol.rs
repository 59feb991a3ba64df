//! The values exchanged with the collector's control socket and with the
//! desktop and remote clients. Their wire encoding lives with the programs
//! that speak it; here they are plain data.
use vstd::prelude::*;

use crate::instant::Timestamp;

verus! {

/// Version of the control protocol spoken by this build.
pub const CONTROL_PROTOCOL_VERSION: u32 = 1;

/// Schema version of the local store.
pub const SCHEMA_VERSION: u32 = 1;

/// An agent runtime that was found on this machine.
#[derive(Debug, Clone, PartialEq, Eq)]
pub struct RuntimeDescriptor {
    pub provider_id: String,
    pub label: String,
    pub source: RuntimeSource,
    pub version: Option<String>,
    pub path: String,
}

/// Where an agent runtime came from.
#[derive(Debug, Clone, Copy, PartialEq, Eq, Structural)]
pub enum RuntimeSource {
    Packaged,
    NixStore,
    Override,
}

/// An authentication method offered by the agent.
#[derive(Debug, Clone, PartialEq, Eq)]
pub struct AuthMethodView {
    pub id: String,
    pub name: String,
}

/// The current brief as clients show it.
#[derive(Debug, Clone, PartialEq, Eq)]
pub struct BriefView {
    pub protect: Vec<BriefItemView>,
    pub explore: Vec<ExplorationView>,
    pub coverage: Vec<CoverageView>,
    pub generated_at: String,
}

/// One item of a brief.
#[derive(Debug, Clone, PartialEq, Eq)]
pub struct BriefItemView {
    pub id: String,
    pub title: String,
    pub reason: String,
    pub source: String,
    pub observed_at: String,
}

/// An item worth exploring, with its timebox.
#[derive(Debug, Clone, PartialEq, Eq)]
pub struct ExplorationView {
    pub item: BriefItemView,
    pub minutes: u16,
}

/// How well one source was covered when the brief was made.
#[derive(Debug, Clone, PartialEq, Eq)]
pub struct CoverageView {
    pub source: String,
    pub observed_at: String,
    pub status: String,
}

/// A triage proposal as clients show it.
#[derive(Debug, Clone, PartialEq, Eq)]
pub struct TriageProposalView {
    pub id: String,
    pub summary: String,
    pub protect_ids: Vec<String>,
    pub explore_id: Option<String>,
    pub return_anchor: String,
    pub return_command: String,
}

/// The agent's state along three independent axes, and the runtime in use.
#[derive(Debug, Clone, PartialEq, Eq)]
pub struct AgentStatus {
    pub availability: AvailabilityStatus,
    pub authentication: AuthenticationStatus,
    pub process: ProcessStatus,
    pub runtime: Option<RuntimeDescriptor>,
}

/// Whether a usable agent runtime exists.
#[derive(Debug, Clone, PartialEq, Eq)]
pub enum AvailabilityStatus {
    Checking,
    Available,
    Missing { message: String },
    Incompatible { found: String, required: String },
}

/// Whether the agent has been authenticated.
#[derive(Debug, Clone, PartialEq, Eq)]
pub enum AuthenticationStatus {
    Unknown,
    Authenticating,
    Required { methods: Vec<AuthMethodView> },
    Authenticated,
}

/// Whether the agent process runs.
#[derive(Debug, Clone, PartialEq, Eq)]
pub enum ProcessStatus {
    Stopped,
    Starting,
    Ready,
    Busy,
    Failed { message: String },
}

/// Something the daemon reports to its clients.
#[derive(Debug, Clone, PartialEq, Eq)]
pub enum DaemonEvent {
    AgentStatusChanged { status: AgentStatus },
    MessageStarted { id: String, role: String },
    MessageDelta { id: String, text: String },
    MessageFinished { id: String },
    ProposalReceived { proposal: TriageProposalView },
    BriefChanged { brief: BriefView },
    ProposalApplied { proposal: TriageProposalView },
    TurnFinished,
    Error { message: String },
}

/// A daemon event with its place in the journal.
#[derive(Debug, Clone, PartialEq, Eq)]
pub struct SequencedDaemonEvent {
    pub sequence: u64,
    pub event: DaemonEvent,
}

/// A request sent to the daemon's control socket.
#[derive(Debug, Clone, PartialEq, Eq)]
pub enum ControlRequest {
    Status,
    Pause { until: Option<Timestamp> },
    Resume,
    Delete { start: Timestamp, end: Timestamp },
    LoadBrief,
    LoadReturnThread,
    ApplyProposal { proposal_id: String },
    AgentStatus,
    AgentStart,
    AgentAuthenticate { method_id: String },
    AgentPrompt { text: String },
    AgentCancel,
    AgentStop,
    EventCursor,
    Events { after: u64 },
    Shutdown,
}

/// The daemon's answer to a control request.
#[derive(Debug, Clone, PartialEq, Eq)]
pub enum ControlResponse {
    Acknowledged,
    Status(CollectorStatus),
    Deleted { segments: u64 },
    Brief(BriefView),
    ReturnThread(Option<TriageProposalView>),
    Proposal(TriageProposalView),
    AgentStatus(AgentStatus),
    EventCursor { next_sequence: u64 },
    Events { events: Vec<SequencedDaemonEvent>, next_sequence: u64 },
    Error { code: String, message: String },
}

/// What the collector reports of itself.
#[derive(Debug, Clone, Copy, PartialEq, Eq)]
pub struct CollectorStatus {
    pub control_protocol_version: u32,
    pub schema_version: u32,
    pub recording: RecordingStatus,
    pub last_window_event_at: Option<Timestamp>,
    pub paused_until: Option<Timestamp>,
    pub source_available: bool,
}

/// Whether focus is being recorded.
#[derive(Debug, Clone, Copy, PartialEq, Eq, Structural)]
pub enum RecordingStatus {
    Active,
    Paused,
    Disabled,
}

/// The envelope of a successful remote API answer.
#[derive(Debug, Clone, PartialEq, Eq)]
pub struct ApiResponse<T> {
    pub data: T,
}

/// Everything a remote client needs to draw its first screen.
#[derive(Debug, Clone, PartialEq, Eq)]
pub struct RemoteSnapshot {
    pub brief: BriefView,
    pub return_thread: Option<TriageProposalView>,
    pub pending_proposal: Option<TriageProposalView>,
    pub agent: AgentStatus,
    pub next_sequence: u64,
}

/// A remote request to start an agent turn.
#[derive(Debug, Clone, PartialEq, Eq)]
pub struct StartTurnRequest {
    pub text: String,
}

/// The identifier of a turn that was started.
#[derive(Debug, Clone, PartialEq, Eq)]
pub struct StartedTurn {
    pub id: String,
}

/// The body of a failed remote API answer.
#[derive(Debug, Clone, PartialEq, Eq)]
pub struct ApiErrorBody {
    pub code: String,
    pub message: String,
    pub retryable: bool,
    pub details: Vec<ApiErrorDetail>,
}

/// One field-level reason of a failed remote API answer.
#[derive(Debug, Clone, PartialEq, Eq)]
pub struct ApiErrorDetail {
    pub field: String,
    pub reason: String,
}

/// The status the collector reports when no daemon answers: recording is
/// disabled and no source is available.
pub fn disabled_collector_status() -> (r: CollectorStatus)
    ensures
        r == (CollectorStatus {
            control_protocol_version: CONTROL_PROTOCOL_VERSION,
            schema_version: SCHEMA_VERSION,
            recording: RecordingStatus::Disabled,
            last_window_event_at: None,
            paused_until: None,
            source_available: false,
        }),
{
    CollectorStatus {
        control_protocol_version: CONTROL_PROTOCOL_VERSION,
        schema_version: SCHEMA_VERSION,
        recording: RecordingStatus::Disabled,
        last_window_event_at: None,
        paused_until: None,
        source_available: false,
    }
}

/// Whether two authentication states are the same.
pub open spec fn same_authentication(a: AuthenticationStatus, b: AuthenticationStatus) -> bool {
    match (a, b) {
        (AuthenticationStatus::Unknown, AuthenticationStatus::Unknown) => true,
        (AuthenticationStatus::Authenticating, AuthenticationStatus::Authenticating) => true,
        (AuthenticationStatus::Required { methods: x }, AuthenticationStatus::Required { methods: y }) => x@ == y@,
        (AuthenticationStatus::Authenticated, AuthenticationStatus::Authenticated) => true,
        _ => false,
    }
}

/// Whether two agent statuses are the same.
pub open spec fn same_agent_status(a: AgentStatus, b: AgentStatus) -> bool {
    &&& a.availability == b.availability
    &&& same_authentication(a.authentication, b.authentication)
    &&& a.process == b.process
    &&& a.runtime == b.runtime
}

/// Whether two briefs are the same.
pub open spec fn same_brief(a: BriefView, b: BriefView) -> bool {
    &&& a.protect@ == b.protect@
    &&& a.explore@ == b.explore@
    &&& a.coverage@ == b.coverage@
    &&& a.generated_at == b.generated_at
}

/// Whether two triage proposals are the same.
pub open spec fn same_triage(a: TriageProposalView, b: TriageProposalView) -> bool {
    &&& a.id == b.id
    &&& a.summary == b.summary
    &&& a.protect_ids@ == b.protect_ids@
    &&& a.explore_id == b.explore_id
    &&& a.return_anchor == b.return_anchor
    &&& a.return_command == b.return_command
}

/// Whether two daemon events are the same.
pub open spec fn same_event(a: DaemonEvent, b: DaemonEvent) -> bool {
    match (a, b) {
        (DaemonEvent::AgentStatusChanged { status: x }, DaemonEvent::AgentStatusChanged { status: y }) => same_agent_status(x, y),
        (DaemonEvent::ProposalReceived { proposal: x }, DaemonEvent::ProposalReceived { proposal: y }) => same_triage(x, y),
        (DaemonEvent::BriefChanged { brief: x }, DaemonEvent::BriefChanged { brief: y }) => same_brief(x, y),
        (DaemonEvent::ProposalApplied { proposal: x }, DaemonEvent::ProposalApplied { proposal: y }) => same_triage(x, y),
        (DaemonEvent::AgentStatusChanged { .. }, _) => false,
        (DaemonEvent::ProposalReceived { .. }, _) => false,
        (DaemonEvent::BriefChanged { .. }, _) => false,
        (DaemonEvent::ProposalApplied { .. }, _) => false,
        _ => a == b,
    }
}

fn copy_opt_string(v: &Option<String>) -> (r: Option<String>)
    ensures
        r == *v,
{
    match v {
        Some(s) => Some(s.clone()),
        None => None,
    }
}

impl AuthMethodView {
    /// A copy of the method.
    pub fn copy(&self) -> (r: AuthMethodView)
        ensures
            r == *self,
    {
        AuthMethodView { id: self.id.clone(), name: self.name.clone() }
    }
}

impl RuntimeDescriptor {
    /// A copy of the descriptor.
    pub fn copy(&self) -> (r: RuntimeDescriptor)
        ensures
            r == *self,
    {
        RuntimeDescriptor {
            provider_id: self.provider_id.clone(),
            label: self.label.clone(),
            source: self.source,
            version: copy_opt_string(&self.version),
            path: self.path.clone(),
        }
    }
}

impl AvailabilityStatus {
    /// A copy of the status.
    pub fn copy(&self) -> (r: AvailabilityStatus)
        ensures
            r == *self,
    {
        match self {
            AvailabilityStatus::Checking => AvailabilityStatus::Checking,
            AvailabilityStatus::Available => AvailabilityStatus::Available,
            AvailabilityStatus::Missing { message } => AvailabilityStatus::Missing { message: message.clone() },
            AvailabilityStatus::Incompatible { found, required } => AvailabilityStatus::Incompatible {
                found: found.clone(),
                required: required.clone(),
            },
        }
    }
}

impl ProcessStatus {
    /// A copy of the status.
    pub fn copy(&self) -> (r: ProcessStatus)
        ensures
            r == *self,
    {
        match self {
            ProcessStatus::Stopped => ProcessStatus::Stopped,
            ProcessStatus::Starting => ProcessStatus::Starting,
            ProcessStatus::Ready => ProcessStatus::Ready,
            ProcessStatus::Busy => ProcessStatus::Busy,
            ProcessStatus::Failed { message } => ProcessStatus::Failed { message: message.clone() },
        }
    }
}

impl AuthenticationStatus {
    /// A copy of the status.
    pub fn copy(&self) -> (r: AuthenticationStatus)
        ensures
            same_authentication(r, *self),
    {
        match self {
            AuthenticationStatus::Unknown => AuthenticationStatus::Unknown,
            AuthenticationStatus::Authenticating => AuthenticationStatus::Authenticating,
            AuthenticationStatus::Required { methods } => {
                let mut out: Vec<AuthMethodView> = Vec::new();
                let mut k: usize = 0;
                while k < methods.len()
                    invariant
                        k <= methods@.len(),
                        out@ == methods@.take(k as int),
                    decreases methods@.len() - k,
                {
                    out.push(methods[k].copy());
                    proof { assert(methods@.take(k + 1) =~= methods@.take(k as int).push(methods@[k as int])); }
                    k = k + 1;
                }
                proof { assert(methods@.take(methods@.len() as int) =~= methods@); }
                AuthenticationStatus::Required { methods: out }
            },
            AuthenticationStatus::Authenticated => AuthenticationStatus::Authenticated,
        }
    }
}

impl AgentStatus {
    /// A copy of the status.
    pub fn copy(&self) -> (r: AgentStatus)
        ensures
            same_agent_status(r, *self),
    {
        AgentStatus {
            availability: self.availability.copy(),
            authentication: self.authentication.copy(),
            process: self.process.copy(),
            runtime: match &self.runtime {
                Some(d) => Some(d.copy()),
                None => None,
            },
        }
    }
}

impl BriefItemView {
    /// A copy of the item.
    pub fn copy(&self) -> (r: BriefItemView)
        ensures
            r == *self,
    {
        BriefItemView {
            id: self.id.clone(),
            title: self.title.clone(),
            reason: self.reason.clone(),
            source: self.source.clone(),
            observed_at: self.observed_at.clone(),
        }
    }
}

impl ExplorationView {
    /// A copy of the item.
    pub fn copy(&self) -> (r: ExplorationView)
        ensures
            r == *self,
    {
        ExplorationView { item: self.item.copy(), minutes: self.minutes }
    }
}

impl CoverageView {
    /// A copy of the coverage.
    pub fn copy(&self) -> (r: CoverageView)
        ensures
            r == *self,
    {
        CoverageView { source: self.source.clone(), observed_at: self.observed_at.clone(), status: self.status.clone() }
    }
}

impl BriefView {
    /// A copy of the brief.
    pub fn copy(&self) -> (r: BriefView)
        ensures
            same_brief(r, *self),
    {
        let mut protect: Vec<BriefItemView> = Vec::new();
        let mut k: usize = 0;
        while k < self.protect.len()
            invariant
                k <= self.protect@.len(),
                protect@ == self.protect@.take(k as int),
            decreases self.protect@.len() - k,
        {
            protect.push(self.protect[k].copy());
            proof { assert(self.protect@.take(k + 1) =~= self.protect@.take(k as int).push(self.protect@[k as int])); }
            k = k + 1;
        }
        let mut explore: Vec<ExplorationView> = Vec::new();
        let mut k: usize = 0;
        while k < self.explore.len()
            invariant
                k <= self.explore@.len(),
                explore@ == self.explore@.take(k as int),
            decreases self.explore@.len() - k,
        {
            explore.push(self.explore[k].copy());
            proof { assert(self.explore@.take(k + 1) =~= self.explore@.take(k as int).push(self.explore@[k as int])); }
            k = k + 1;
        }
        let mut coverage: Vec<CoverageView> = Vec::new();
        let mut k: usize = 0;
        while k < self.coverage.len()
            invariant
                k <= self.coverage@.len(),
                coverage@ == self.coverage@.take(k as int),
            decreases self.coverage@.len() - k,
        {
            coverage.push(self.coverage[k].copy());
            proof { assert(self.coverage@.take(k + 1) =~= self.coverage@.take(k as int).push(self.coverage@[k as int])); }
            k = k + 1;
        }
        proof {
            assert(self.protect@.take(self.protect@.len() as int) =~= self.protect@);
            assert(self.explore@.take(self.explore@.len() as int) =~= self.explore@);
            assert(self.coverage@.take(self.coverage@.len() as int) =~= self.coverage@);
        }
        BriefView { protect, explore, coverage, generated_at: self.generated_at.clone() }
    }
}

impl TriageProposalView {
    /// A copy of the proposal.
    pub fn copy(&self) -> (r: TriageProposalView)
        ensures
            same_triage(r, *self),
    {
        let mut ids: Vec<String> = Vec::new();
        let mut k: usize = 0;
        while k < self.protect_ids.len()
            invariant
                k <= self.protect_ids@.len(),
                ids@ == self.protect_ids@.take(k as int),
            decreases self.protect_ids@.len() - k,
        {
            ids.push(self.protect_ids[k].clone());
            proof { assert(self.protect_ids@.take(k + 1) =~= self.protect_ids@.take(k as int).push(self.protect_ids@[k as int])); }
            k = k + 1;
        }
        proof { assert(self.protect_ids@.take(self.protect_ids@.len() as int) =~= self.protect_ids@); }
        TriageProposalView {
            id: self.id.clone(),
            summary: self.summary.clone(),
            protect_ids: ids,
            explore_id: copy_opt_string(&self.explore_id),
            return_anchor: self.return_anchor.clone(),
            return_command: self.return_command.clone(),
        }
    }
}

impl DaemonEvent {
    /// A copy of the event.
    pub fn copy(&self) -> (r: DaemonEvent)
        ensures
            same_event(r, *self),
    {
        match self {
            DaemonEvent::AgentStatusChanged { status } => DaemonEvent::AgentStatusChanged { status: status.copy() },
            DaemonEvent::MessageStarted { id, role } => DaemonEvent::MessageStarted { id: id.clone(), role: role.clone() },
            DaemonEvent::MessageDelta { id, text } => DaemonEvent::MessageDelta { id: id.clone(), text: text.clone() },
            DaemonEvent::MessageFinished { id } => DaemonEvent::MessageFinished { id: id.clone() },
            DaemonEvent::ProposalReceived { proposal } => DaemonEvent::ProposalReceived { proposal: proposal.copy() },
            DaemonEvent::BriefChanged { brief } => DaemonEvent::BriefChanged { brief: brief.copy() },
            DaemonEvent::ProposalApplied { proposal } => DaemonEvent::ProposalApplied { proposal: proposal.copy() },
            DaemonEvent::TurnFinished => DaemonEvent::TurnFinished,
            DaemonEvent::Error { message } => DaemonEvent::Error { message: message.clone() },
        }
    }
}

} // verus!
