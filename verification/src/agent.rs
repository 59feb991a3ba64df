//! The agent runtime's configuration, the events it reports, and the rules
//! it applies on its own: explicit paths, and which tool requests it lets an
//! agent run.
use std::time::Duration;

use vstd::prelude::*;

use crate::config::{is_absolute, is_absolute_path};

verus! {

/// How to start an agent runtime.
#[derive(Debug)]
pub struct AgentConfig {
    pub executable: String,
    pub args: Vec<String>,
    pub working_directory: String,
    pub mcp_server: Option<McpServerConfig>,
    pub startup_timeout: Duration,
    pub turn_timeout: Duration,
}

/// The proposal tool server handed to the agent.
#[derive(Debug, Clone, PartialEq, Eq)]
pub struct McpServerConfig {
    pub executable: String,
    pub args: Vec<String>,
}

/// An authentication method the agent advertises.
#[derive(Debug, Clone, PartialEq, Eq)]
pub struct AuthMethodInfo {
    pub id: String,
    pub name: String,
}

/// The lifecycle state of the runtime.
#[derive(Debug, Clone, Copy, PartialEq, Eq, Structural)]
pub enum RuntimeState {
    Stopped,
    Starting,
    Ready,
    Busy,
    Stopping,
    Failed,
}

/// Something the runtime reports.
#[derive(Debug, Clone, PartialEq, Eq)]
pub enum AgentEvent {
    RuntimeStateChanged { state: RuntimeState },
    TextDelta { text: String },
    ToolCall { title: String, status: String },
    PermissionRequested { request_id: String, title: String, options: Vec<PermissionOption> },
    TurnFinished,
    Error { message: String },
}

/// A choice offered with a permission request.
#[derive(Debug, Clone, PartialEq, Eq)]
pub struct PermissionOption {
    pub id: String,
    pub label: String,
}

/// Errors of the agent runtime's own rules and lifecycle.
#[derive(Debug, Clone, PartialEq, Eq)]
pub enum AgentError {
    ExecutablePathRequired,
    WorkingDirectoryMustBeAbsolute,
    McpExecutablePathRequired,
    StartupTimeout,
    StartupFailed,
    SessionUnavailable { message: String, auth_methods: Vec<AuthMethodInfo> },
    AuthMethodUnavailable(String),
    RuntimeStopped,
    TurnTimeout,
}

/// The outcome of checking an agent configuration's paths.
pub open spec fn agent_config_check(c: AgentConfig) -> Option<AgentError> {
    if !is_absolute(c.executable@) {
        Some(AgentError::ExecutablePathRequired)
    } else if !is_absolute(c.working_directory@) {
        Some(AgentError::WorkingDirectoryMustBeAbsolute)
    } else if c.mcp_server matches Some(s) && !is_absolute(s.executable@) {
        Some(AgentError::McpExecutablePathRequired)
    } else {
        None
    }
}

impl AgentConfig {
    /// Checks that the executables are explicit (absolute) paths and the
    /// working directory is absolute.
    pub fn validate(&self) -> (r: Result<(), AgentError>)
        ensures
            match agent_config_check(*self) {
                Some(e) => r == Err::<(), AgentError>(e),
                None => r is Ok,
            },
    {
        if !is_absolute_path(self.executable.as_str()) {
            return Err(AgentError::ExecutablePathRequired);
        }
        if !is_absolute_path(self.working_directory.as_str()) {
            return Err(AgentError::WorkingDirectoryMustBeAbsolute);
        }
        if let Some(server) = &self.mcp_server {
            if !is_absolute_path(server.executable.as_str()) {
                return Err(AgentError::McpExecutablePathRequired);
            }
        }
        Ok(())
    }
}

/// Whether a character belongs to a tool name: an ASCII letter or digit, or
/// an underscore.
pub open spec fn word_char(c: char) -> bool {
    ('a' <= c && c <= 'z') || ('A' <= c && c <= 'Z') || ('0' <= c && c <= '9') || c == '_'
}

/// Whether `name` stands in `title` as a whole word: bounded by the ends of
/// the title or by characters that are not part of tool names.
pub open spec fn whole_word_at(title: Seq<char>, name: Seq<char>, i: int) -> bool {
    &&& 0 <= i
    &&& i + name.len() <= title.len()
    &&& title.subrange(i, i + name.len()) == name
    &&& (i == 0 || !word_char(title[i - 1]))
    &&& (i + name.len() == title.len() || !word_char(title[i + name.len()]))
}

/// Whether a tool title names one of the proposal tools as a whole word.
pub open spec fn names_proposal_tool(title: Seq<char>) -> bool {
    exists|i: int| whole_word_at(title, "brief_propose"@, i) || whole_word_at(title, "triage_propose"@, i)
}

fn is_word_char(c: char) -> (r: bool)
    ensures
        r == word_char(c),
{
    ('a' <= c && c <= 'z') || ('A' <= c && c <= 'Z') || ('0' <= c && c <= '9') || c == '_'
}

/// Whether a tool title names `brief_propose` or `triage_propose` as a whole
/// word; arguments that merely contain the names do not count.
pub fn is_proposal_tool_title(title: &str) -> (r: bool)
    ensures
        r == names_proposal_tool(title@),
{
    let s = crate::text::chars_of(title);
    let brief = crate::text::chars_of("brief_propose");
    let triage = crate::text::chars_of("triage_propose");
    let ghost bn = "brief_propose"@;
    let ghost tn = "triage_propose"@;
    proof {
        reveal_strlit("brief_propose");
        reveal_strlit("triage_propose");
    }
    let n = s.len();
    let mut start: usize = 0;
    while start < n
        invariant
            start <= n,
            n == s@.len(),
            s@ == title@,
            brief@ == bn,
            triage@ == tn,
            bn == "brief_propose"@,
            tn == "triage_propose"@,
            forall|c: int| 0 <= c < bn.len() ==> word_char(#[trigger] bn[c]),
            forall|c: int| 0 <= c < tn.len() ==> word_char(#[trigger] tn[c]),
            start < n ==> (start == 0 || !word_char(s@[start - 1])),
            forall|i: int| 0 <= i < start ==> !whole_word_at(s@, bn, i) && !whole_word_at(s@, tn, i),
        decreases n - start,
    {
        let mut end: usize = start;
        while end < n && is_word_char(s[end])
            invariant
                start <= end <= n,
                n == s@.len(),
                forall|k: int| start <= k < end ==> word_char(#[trigger] s@[k]),
            decreases n - end,
        {
            end = end + 1;
        }
        let mut token: Vec<char> = Vec::new();
        let mut k: usize = start;
        while k < end
            invariant
                start <= k <= end <= n,
                n == s@.len(),
                token@ == s@.subrange(start as int, k as int),
            decreases end - k,
        {
            token.push(s[k]);
            proof { assert(s@.subrange(start as int, k + 1) =~= s@.subrange(start as int, k as int).push(s@[k as int])); }
            k = k + 1;
        }
        if crate::text::chars_eq(token.as_slice(), brief.as_slice()) {
            proof { assert(whole_word_at(s@, bn, start as int)); }
            return true;
        }
        if crate::text::chars_eq(token.as_slice(), triage.as_slice()) {
            proof { assert(whole_word_at(s@, tn, start as int)); }
            return true;
        }
        proof {
            assert forall|i: int| start <= i <= end implies !whole_word_at(s@, bn, i) && !whole_word_at(s@, tn, i) by {
                if whole_word_at(s@, bn, i) {
                    if i == start as int {
                        if i + bn.len() < end {
                            assert(word_char(s@[i + bn.len()]));
                        } else if i + bn.len() > end {
                            assert(s@[end as int] == bn[end - i]);
                        } else {
                            assert(token@ =~= bn);
                        }
                    } else {
                        assert(word_char(s@[i - 1]));
                    }
                }
                if whole_word_at(s@, tn, i) {
                    if i == start as int {
                        if i + tn.len() < end {
                            assert(word_char(s@[i + tn.len()]));
                        } else if i + tn.len() > end {
                            assert(s@[end as int] == tn[end - i]);
                        } else {
                            assert(token@ =~= tn);
                        }
                    } else {
                        assert(word_char(s@[i - 1]));
                    }
                }
            }
        }
        if end < n {
            start = end + 1;
        } else {
            start = n;
        }
    }
    false
}

/// The kind of a permission option offered by the agent.
#[derive(Debug, Clone, Copy, PartialEq, Eq, Structural)]
pub enum PermissionKind {
    AllowOnce,
    AllowAlways,
    RejectOnce,
    RejectAlways,
}

/// Whether an option may answer a request: for a proposal tool, allowing
/// once; for any other tool, a rejection.
pub open spec fn acceptable_option(is_proposal_tool: bool, kind: PermissionKind) -> bool {
    if is_proposal_tool {
        kind == PermissionKind::AllowOnce
    } else {
        kind == PermissionKind::RejectOnce || kind == PermissionKind::RejectAlways
    }
}

/// The option that answers a permission request: the first acceptable one,
/// or none (the request is cancelled).
pub fn select_permission_option(is_proposal_tool: bool, kinds: &Vec<PermissionKind>) -> (r: Option<usize>)
    ensures
        match r {
            Some(i) => i < kinds@.len() && acceptable_option(is_proposal_tool, kinds@[i as int])
                && forall|j: int| 0 <= j < i ==> !acceptable_option(is_proposal_tool, #[trigger] kinds@[j]),
            None => forall|j: int| 0 <= j < kinds@.len() ==> !acceptable_option(is_proposal_tool, #[trigger] kinds@[j]),
        },
{
    let mut k: usize = 0;
    while k < kinds.len()
        invariant
            k <= kinds@.len(),
            forall|j: int| 0 <= j < k ==> !acceptable_option(is_proposal_tool, #[trigger] kinds@[j]),
        decreases kinds@.len() - k,
    {
        let kind = kinds[k];
        let ok = if is_proposal_tool {
            kind == PermissionKind::AllowOnce
        } else {
            kind == PermissionKind::RejectOnce || kind == PermissionKind::RejectAlways
        };
        if ok {
            return Some(k);
        }
        k = k + 1;
    }
    None
}

/// An agent is never allowed to run a tool other than the proposal tools:
/// whatever option answers a request for another tool rejects it, and a
/// proposal tool is allowed once, never always.
pub proof fn law_only_proposal_tools_are_allowed(title: Seq<char>, kind: PermissionKind)
    requires
        acceptable_option(names_proposal_tool(title), kind),
    ensures
        kind != PermissionKind::AllowAlways,
        !names_proposal_tool(title) ==> kind == PermissionKind::RejectOnce || kind == PermissionKind::RejectAlways,
{
}

/// A UUID, as the `uuid` crate makes it; the library only carries it.
#[verifier::external_type_specification]
#[verifier::external_body]
pub struct ExUuid(uuid::Uuid);

/// An agent event with where it belongs: the runtime generation, the
/// session and turn, and its place in the runtime's sequence.
#[derive(Debug)]
pub struct EventEnvelope {
    pub generation: uuid::Uuid,
    pub session_id: Option<String>,
    pub turn_id: Option<uuid::Uuid>,
    pub sequence: u64,
    pub event: AgentEvent,
}

/// Stamps the events of one runtime generation with the current session and
/// turn and a sequence number.
#[derive(Debug)]
pub struct EventEmitter {
    pub generation: uuid::Uuid,
    pub sequence: u64,
    pub session_id: Option<String>,
    pub turn_id: Option<uuid::Uuid>,
}

impl EventEmitter {
    /// An emitter for a generation, before any session or turn.
    pub fn new(generation: uuid::Uuid) -> (r: EventEmitter)
        ensures
            r.generation == generation,
            r.sequence == 0,
            r.session_id is None,
            r.turn_id is None,
    {
        EventEmitter { generation, sequence: 0, session_id: None, turn_id: None }
    }

    /// Records the session the events belong to.
    pub fn set_session(&mut self, session_id: String)
        ensures
            final(self).session_id == Some(session_id),
            final(self).generation == old(self).generation,
            final(self).sequence == old(self).sequence,
            final(self).turn_id == old(self).turn_id,
    {
        self.session_id = Some(session_id);
    }

    /// Records the turn the events belong to, or that none is running.
    pub fn set_turn(&mut self, turn_id: Option<uuid::Uuid>)
        ensures
            final(self).turn_id == turn_id,
            final(self).generation == old(self).generation,
            final(self).sequence == old(self).sequence,
            final(self).session_id == old(self).session_id,
    {
        self.turn_id = turn_id;
    }

    /// Stamps an event with the current context and the next sequence
    /// number, which wraps around after its largest value.
    pub fn emit(&mut self, event: AgentEvent) -> (r: EventEnvelope)
        ensures
            r.generation == old(self).generation,
            r.session_id == old(self).session_id,
            r.turn_id == old(self).turn_id,
            r.sequence == old(self).sequence,
            r.event == event,
            final(self).sequence == (if old(self).sequence == u64::MAX { 0 } else { old(self).sequence + 1 }),
            final(self).generation == old(self).generation,
            final(self).session_id == old(self).session_id,
            final(self).turn_id == old(self).turn_id,
    {
        let sequence = self.sequence;
        self.sequence = self.sequence.wrapping_add(1);
        let session_id = match &self.session_id {
            Some(s) => Some(s.clone()),
            None => None,
        };
        EventEnvelope { generation: self.generation, session_id, turn_id: self.turn_id, sequence, event }
    }
}

/// The event that reports how a turn ended: finished, or the error's text.
pub fn turn_outcome_event(result: Result<(), String>) -> (r: AgentEvent)
    ensures
        match result {
            Ok(_) => r == AgentEvent::TurnFinished,
            Err(message) => r == (AgentEvent::Error { message }),
        },
{
    match result {
        Ok(_) => AgentEvent::TurnFinished,
        Err(message) => AgentEvent::Error { message },
    }
}

/// The event a tool call update becomes: its title, or the call's
/// identifier when it has none, and its status, `in_progress` when unknown.
pub fn tool_call_update_event(title: Option<String>, call_id: String, status: Option<String>) -> (r: AgentEvent)
    ensures
        r matches AgentEvent::ToolCall { title: t, status: st }
            && t == (match title { Some(x) => x, None => call_id })
            && st@ == (match status { Some(s) => s@, None => "in_progress"@ }),
{
    AgentEvent::ToolCall {
        title: match title {
            Some(t) => t,
            None => call_id,
        },
        status: match status {
            Some(s) => s,
            None => "in_progress".to_string(),
        },
    }
}

} // verus!
