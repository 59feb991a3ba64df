//! The proposal tools offered to the agent: what their inputs are, and how
//! an input becomes a proposal. Storing it is the store's business.
use vstd::prelude::*;

use crate::attention::{
    BriefDisposition, BriefItem, BriefProposal, ProposedCuriosityCapture, ProposedDecision,
    ProposedReturnAnchor, TriageProposal,
};
use crate::instant::Timestamp;

verus! {

/// Why the proposal tool server stopped.
#[derive(Debug, Clone, PartialEq, Eq)]
pub enum McpServerError {
    Start(String),
    Runtime(String),
}

/// The proposal tool server over one database.
#[derive(Debug, Clone, PartialEq, Eq)]
pub struct ProposalMcpServer {
    pub database_file: String,
}

impl ProposalMcpServer {
    /// A server storing into the database at the path.
    pub fn new(database_file: String) -> (r: ProposalMcpServer)
        ensures
            r.database_file == database_file,
    {
        ProposalMcpServer { database_file }
    }
}

/// The input of `brief_propose`.
#[derive(Debug, Clone, PartialEq, Eq)]
pub struct BriefProposalInput {
    pub id: String,
    pub batch_id: String,
    pub created_at: String,
    pub items: Vec<BriefItemInput>,
}

/// One candidate of a brief input.
#[derive(Debug, Clone, PartialEq, Eq)]
pub struct BriefItemInput {
    pub id: String,
    pub title: String,
    pub reason: String,
    pub disposition: BriefDispositionInput,
    pub exploration_minutes: Option<u16>,
    pub evidence_ids: Vec<String>,
    pub unknowns: Vec<String>,
}

/// The disposition of a candidate input.
#[derive(Debug, Clone, Copy, PartialEq, Eq, Structural)]
pub enum BriefDispositionInput {
    Protect,
    Explore,
}

/// The input of `triage_propose`.
#[derive(Debug, Clone, PartialEq, Eq)]
pub struct TriageProposalInput {
    pub id: String,
    pub brief_proposal_id: String,
    pub created_at: String,
    pub decisions: Vec<ProposedDecisionInput>,
    pub curiosity_captures: Vec<ProposedCuriosityCaptureInput>,
    pub return_anchor: Option<ProposedReturnAnchorInput>,
}

/// A decision input.
#[derive(Debug, Clone, PartialEq, Eq)]
pub struct ProposedDecisionInput {
    pub id: String,
    pub candidate_id: String,
    pub decision: String,
    pub evidence_ids: Vec<String>,
}

/// A curiosity capture input.
#[derive(Debug, Clone, PartialEq, Eq)]
pub struct ProposedCuriosityCaptureInput {
    pub id: String,
    pub question: String,
    pub evidence_ids: Vec<String>,
}

/// A return anchor input.
#[derive(Debug, Clone, PartialEq, Eq)]
pub struct ProposedReturnAnchorInput {
    pub id: String,
    pub label: String,
    pub resume_point: String,
    pub next_action: String,
}

/// The answer of a proposal tool: the proposal's identifier and its status.
#[derive(Debug, Clone, PartialEq, Eq)]
pub struct ProposalStored {
    pub proposal_id: String,
    pub status: &'static str,
}

impl ProposalStored {
    /// The answer for a proposal that was stored, still only proposed.
    pub fn proposed(proposal_id: String) -> (r: ProposalStored)
        ensures
            r.proposal_id == proposal_id,
            r.status@ == "proposed"@,
    {
        ProposalStored { proposal_id, status: "proposed" }
    }
}

/// The instant an RFC 3339 text denotes, or the parser's complaint, as
/// `time::OffsetDateTime::parse` with the `Rfc3339` format gives them.
pub uninterp spec fn rfc3339_reading(text: Seq<char>) -> Result<Timestamp, Seq<char>>;

/// Calls `time::OffsetDateTime::parse` with the RFC 3339 format; the
/// contract claims that the result is the named function of the text, and
/// that a parsed instant is valid (as every `OffsetDateTime` is).
#[verifier::external_body]
fn parse_rfc3339(text: &str) -> (r: Result<Timestamp, String>)
    ensures
        match r {
            Ok(t) => rfc3339_reading(text@) == Ok::<Timestamp, Seq<char>>(t) && t.wf(),
            Err(e) => rfc3339_reading(text@) == Err::<Timestamp, Seq<char>>(e@),
        },
{
    match time::OffsetDateTime::parse(text, &time::format_description::well_known::Rfc3339) {
        Ok(v) => Ok(Timestamp { unix_nanos: v.unix_timestamp_nanos(), offset_seconds: v.offset().whole_seconds() }),
        Err(e) => Err(e.to_string()),
    }
}

/// Reads the instant of a proposal input.
pub fn parse_timestamp(value: &str) -> (r: Result<Timestamp, String>)
    ensures
        match rfc3339_reading(value@) {
            Ok(t) => r == Ok::<Timestamp, String>(t),
            Err(e) => r matches Err(m) && m@ == e,
        },
{
    parse_rfc3339(value)
}

/// The disposition of a candidate input.
pub open spec fn disposition_of_input(d: BriefDispositionInput) -> BriefDisposition {
    match d {
        BriefDispositionInput::Protect => BriefDisposition::Protect,
        BriefDispositionInput::Explore => BriefDisposition::Explore,
    }
}

/// Whether a brief item carries a candidate input over unchanged.
pub open spec fn item_from(i: BriefItem, x: BriefItemInput) -> bool {
    &&& i.id == x.id
    &&& i.title == x.title
    &&& i.reason == x.reason
    &&& i.disposition == disposition_of_input(x.disposition)
    &&& i.exploration_minutes == x.exploration_minutes
    &&& i.evidence_ids@ == x.evidence_ids@
    &&& i.unknowns@ == x.unknowns@
}

/// Turns a `brief_propose` input into a brief proposal; the creation instant
/// must be an RFC 3339 text.
pub fn brief_proposal_from_input(input: BriefProposalInput) -> (r: Result<BriefProposal, String>)
    ensures
        match rfc3339_reading(input.created_at@) {
            Ok(t) => r matches Ok(p) && p.id == input.id && p.batch_id == input.batch_id && p.created_at == t
                && p.items@.len() == input.items@.len()
                && forall|k: int| 0 <= k < input.items@.len() ==> item_from(#[trigger] p.items@[k], input.items@[k]),
            Err(e) => r matches Err(m) && m@ == e,
        },
{
    let created_at = parse_timestamp(input.created_at.as_str())?;
    let ghost inputs = input.items@;
    let mut items: Vec<BriefItem> = Vec::new();
    let mut k: usize = 0;
    while k < input.items.len()
        invariant
            k <= input.items@.len(),
            inputs == input.items@,
            items@.len() == k,
            forall|j: int| 0 <= j < k ==> item_from(#[trigger] items@[j], inputs[j]),
        decreases input.items@.len() - k,
    {
        let x = &input.items[k];
        items.push(BriefItem {
            id: x.id.clone(),
            title: x.title.clone(),
            reason: x.reason.clone(),
            disposition: match x.disposition {
                BriefDispositionInput::Protect => BriefDisposition::Protect,
                BriefDispositionInput::Explore => BriefDisposition::Explore,
            },
            exploration_minutes: x.exploration_minutes,
            evidence_ids: crate::attention::copy_strings(&x.evidence_ids),
            unknowns: crate::attention::copy_strings(&x.unknowns),
        });
        k = k + 1;
    }
    Ok(BriefProposal { id: input.id, batch_id: input.batch_id, created_at, items })
}

/// Whether a proposed decision carries a decision input over unchanged.
pub open spec fn decision_from(d: ProposedDecision, x: ProposedDecisionInput) -> bool {
    d.id == x.id && d.candidate_id == x.candidate_id && d.decision == x.decision && d.evidence_ids@ == x.evidence_ids@
}

/// Whether a proposed capture carries a capture input over unchanged.
pub open spec fn capture_from(c: ProposedCuriosityCapture, x: ProposedCuriosityCaptureInput) -> bool {
    c.id == x.id && c.question == x.question && c.evidence_ids@ == x.evidence_ids@
}

/// Turns a `triage_propose` input into a triage proposal; the creation
/// instant must be an RFC 3339 text.
pub fn triage_proposal_from_input(input: TriageProposalInput) -> (r: Result<TriageProposal, String>)
    ensures
        match rfc3339_reading(input.created_at@) {
            Ok(t) => r matches Ok(p) && p.id == input.id && p.brief_proposal_id == input.brief_proposal_id
                && p.created_at == t
                && p.decisions@.len() == input.decisions@.len()
                && (forall|k: int| 0 <= k < input.decisions@.len() ==> decision_from(#[trigger] p.decisions@[k], input.decisions@[k]))
                && p.curiosity_captures@.len() == input.curiosity_captures@.len()
                && (forall|k: int| 0 <= k < input.curiosity_captures@.len() ==> capture_from(#[trigger] p.curiosity_captures@[k], input.curiosity_captures@[k]))
                && match input.return_anchor {
                    Some(a) => p.return_anchor == Some(ProposedReturnAnchor {
                        id: a.id, label: a.label, resume_point: a.resume_point, next_action: a.next_action,
                    }),
                    None => p.return_anchor is None,
                },
            Err(e) => r matches Err(m) && m@ == e,
        },
{
    let created_at = parse_timestamp(input.created_at.as_str())?;
    let mut decisions: Vec<ProposedDecision> = Vec::new();
    let mut k: usize = 0;
    while k < input.decisions.len()
        invariant
            k <= input.decisions@.len(),
            decisions@.len() == k,
            forall|j: int| 0 <= j < k ==> decision_from(#[trigger] decisions@[j], input.decisions@[j]),
        decreases input.decisions@.len() - k,
    {
        let x = &input.decisions[k];
        decisions.push(ProposedDecision {
            id: x.id.clone(),
            candidate_id: x.candidate_id.clone(),
            decision: x.decision.clone(),
            evidence_ids: crate::attention::copy_strings(&x.evidence_ids),
        });
        k = k + 1;
    }
    let mut captures: Vec<ProposedCuriosityCapture> = Vec::new();
    let mut k: usize = 0;
    while k < input.curiosity_captures.len()
        invariant
            k <= input.curiosity_captures@.len(),
            captures@.len() == k,
            forall|j: int| 0 <= j < k ==> capture_from(#[trigger] captures@[j], input.curiosity_captures@[j]),
        decreases input.curiosity_captures@.len() - k,
    {
        let x = &input.curiosity_captures[k];
        captures.push(ProposedCuriosityCapture {
            id: x.id.clone(),
            question: x.question.clone(),
            evidence_ids: crate::attention::copy_strings(&x.evidence_ids),
        });
        k = k + 1;
    }
    let return_anchor = match input.return_anchor {
        Some(a) => Some(ProposedReturnAnchor { id: a.id, label: a.label, resume_point: a.resume_point, next_action: a.next_action }),
        None => None,
    };
    Ok(TriageProposal {
        id: input.id,
        brief_proposal_id: input.brief_proposal_id,
        created_at,
        decisions,
        curiosity_captures: captures,
        return_anchor,
    })
}

} // verus!
