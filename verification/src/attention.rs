//! Observations, agent proposals and the user's confirmed decisions.
//!
//! An observation batch is what producers hand over; a brief proposal is the
//! agent's finite selection from it (at most three items, each backed by
//! evidence); a triage proposal is the agent's reading of the user's words.
//! Nothing an agent proposes counts until the user confirms it.
use vstd::prelude::*;

use crate::focus::CoreError;
use crate::instant::Timestamp;
use crate::text::{blank, is_blank, str_eq};

verus! {

/// The largest number of items a brief may hold.
pub const MAX_BRIEF_ITEMS: usize = 3;

/// How completely a source was read.
#[derive(Debug, Clone, Copy, PartialEq, Eq, Structural)]
pub enum SourceStatus {
    Ready,
    Partial,
    Failed,
}

/// What a producer read of one source.
#[derive(Debug, Clone, PartialEq, Eq)]
pub struct SourceCoverage {
    pub source: String,
    pub status: SourceStatus,
    pub last_synced_at: Timestamp,
    pub raw_item_count: u32,
    pub observation_count: u32,
    pub omitted_item_count: u32,
}

/// How far the content of an observation may be trusted.
#[derive(Debug, Clone, Copy, PartialEq, Eq, Structural)]
pub enum ContentTrust {
    Untrusted,
}

/// One normalized fact from a source.
#[derive(Debug, Clone, PartialEq, Eq)]
pub struct Observation {
    pub id: String,
    pub source: String,
    pub kind: String,
    pub occurred_at: Timestamp,
    pub summary: String,
    pub facts: Vec<String>,
    pub source_ref: String,
    pub content_trust: ContentTrust,
}

/// A batch of observations handed over by one producer.
#[derive(Debug, Clone, PartialEq, Eq)]
pub struct ObservationBatch {
    pub id: String,
    pub producer: String,
    pub generated_at: Timestamp,
    pub source_coverage: Vec<SourceCoverage>,
    pub observations: Vec<Observation>,
}

/// Whether a brief item is to be protected or explored.
#[derive(Debug, Clone, Copy, PartialEq, Eq, Structural)]
pub enum BriefDisposition {
    Protect,
    Explore,
}

/// One item of a brief proposal.
#[derive(Debug, Clone, PartialEq, Eq)]
pub struct BriefItem {
    pub id: String,
    pub title: String,
    pub reason: String,
    pub disposition: BriefDisposition,
    pub exploration_minutes: Option<u16>,
    pub evidence_ids: Vec<String>,
    pub unknowns: Vec<String>,
}

/// The agent's finite brief over one observation batch.
#[derive(Debug, Clone, PartialEq, Eq)]
pub struct BriefProposal {
    pub id: String,
    pub batch_id: String,
    pub created_at: Timestamp,
    pub items: Vec<BriefItem>,
}

/// A decision the agent proposes on a brief candidate.
#[derive(Debug, Clone, PartialEq, Eq)]
pub struct ProposedDecision {
    pub id: String,
    pub candidate_id: String,
    pub decision: String,
    pub evidence_ids: Vec<String>,
}

/// A question the agent proposes to keep for later.
#[derive(Debug, Clone, PartialEq, Eq)]
pub struct ProposedCuriosityCapture {
    pub id: String,
    pub question: String,
    pub evidence_ids: Vec<String>,
}

/// A point the agent proposes to return to.
#[derive(Debug, Clone, PartialEq, Eq)]
pub struct ProposedReturnAnchor {
    pub id: String,
    pub label: String,
    pub resume_point: String,
    pub next_action: String,
}

/// The agent's interpretation of the user's triage of a brief.
#[derive(Debug, Clone, PartialEq, Eq)]
pub struct TriageProposal {
    pub id: String,
    pub brief_proposal_id: String,
    pub created_at: Timestamp,
    pub decisions: Vec<ProposedDecision>,
    pub curiosity_captures: Vec<ProposedCuriosityCapture>,
    pub return_anchor: Option<ProposedReturnAnchor>,
}

/// What the user selected of a triage proposal.
#[derive(Debug, Clone, PartialEq, Eq)]
pub struct TriageConfirmation {
    pub decision_ids: Vec<String>,
    pub curiosity_capture_ids: Vec<String>,
    pub accept_return_anchor: bool,
}

/// A decision the user confirmed.
#[derive(Debug, Clone, PartialEq, Eq)]
pub struct UserDecision {
    pub id: String,
    pub proposal_id: String,
    pub candidate_id: String,
    pub decision: String,
    pub evidence_ids: Vec<String>,
    pub decided_at: Timestamp,
}

/// A question the user chose to keep.
#[derive(Debug, Clone, PartialEq, Eq)]
pub struct CuriosityCapture {
    pub id: String,
    pub proposal_id: String,
    pub question: String,
    pub evidence_ids: Vec<String>,
    pub captured_at: Timestamp,
}

/// A point the user chose to return to.
#[derive(Debug, Clone, PartialEq, Eq)]
pub struct ReturnAnchor {
    pub id: String,
    pub proposal_id: String,
    pub label: String,
    pub resume_point: String,
    pub next_action: String,
    pub saved_at: Timestamp,
}

/// What a validation found wrong, as text.
pub enum Issue {
    Empty(Seq<char>),
    Duplicate(Seq<char>, Seq<char>),
    ItemCount(int, int),
    ExplorationMinutes(Seq<char>),
    MissingEvidence(Seq<char>),
    Other,
}

/// The view of a validation error.
pub open spec fn issue_of(e: CoreError) -> Issue {
    match e {
        CoreError::EmptyField(field) => Issue::Empty(field@),
        CoreError::DuplicateId { entity, id } => Issue::Duplicate(entity@, id@),
        CoreError::InvalidBriefItemCount { count, max } => Issue::ItemCount(count as int, max as int),
        CoreError::InvalidExplorationMinutes { item_id } => Issue::ExplorationMinutes(item_id@),
        CoreError::MissingEvidence { item_id } => Issue::MissingEvidence(item_id@),
        _ => Issue::Other,
    }
}

/// The view of a validation outcome: `None` when it passed.
pub open spec fn outcome(r: Result<(), CoreError>) -> Option<Issue> {
    match r {
        Ok(_) => None,
        Err(e) => Some(issue_of(e)),
    }
}

/// The first of two checks that finds something.
pub open spec fn first_of(a: Option<Issue>, b: Option<Issue>) -> Option<Issue> {
    if a is Some { a } else { b }
}

/// A blank value of a required text field.
pub open spec fn text_issue(field: Seq<char>, value: Seq<char>) -> Option<Issue> {
    if is_blank(value) { Some(Issue::Empty(field)) } else { None }
}

/// The first identifier that repeats an earlier one, from index `j` on.
pub open spec fn first_duplicate_from(ids: Seq<Seq<char>>, j: int) -> Option<Seq<char>>
    decreases ids.len() - j,
{
    if j < 0 || j >= ids.len() {
        None
    } else if exists|i: int| 0 <= i < j && ids[i] == ids[j] {
        Some(ids[j])
    } else {
        first_duplicate_from(ids, j + 1)
    }
}

/// The first identifier that repeats an earlier one.
pub open spec fn first_duplicate(ids: Seq<Seq<char>>) -> Option<Seq<char>> {
    first_duplicate_from(ids, 0)
}

/// A repeated identifier among the entities.
pub open spec fn duplicate_issue(entity: Seq<char>, ids: Seq<Seq<char>>) -> Option<Issue> {
    match first_duplicate(ids) {
        Some(d) => Some(Issue::Duplicate(entity, d)),
        None => None,
    }
}

/// The texts of a list of strings.
pub open spec fn texts(v: Seq<String>) -> Seq<Seq<char>> {
    v.map_values(|s: String| s@)
}

/// The first issue found, element by element, in order.
pub open spec fn first_issue<A>(s: Seq<A>, f: spec_fn(A) -> Option<Issue>) -> Option<Issue>
    decreases s.len(),
{
    if s.len() == 0 {
        None
    } else {
        first_of(f(s[0]), first_issue(s.drop_first(), f))
    }
}

proof fn lemma_first_issue_step<A>(s: Seq<A>, f: spec_fn(A) -> Option<Issue>, k: int)
    requires
        0 <= k < s.len(),
    ensures
        first_issue(s.skip(k), f) == first_of(f(s[k]), first_issue(s.skip(k + 1), f)),
{
    assert(s.skip(k).drop_first() =~= s.skip(k + 1));
    assert(s.skip(k)[0] == s[k]);
}

proof fn lemma_first_issue_ends<A>(s: Seq<A>, f: spec_fn(A) -> Option<Issue>)
    ensures
        first_issue(s.skip(0), f) == first_issue(s, f),
        first_issue(s.skip(s.len() as int), f) is None,
{
    assert(s.skip(0) =~= s);
    assert(s.skip(s.len() as int) =~= Seq::<A>::empty());
}

/// Checks that a required text field is not blank.
pub fn require_text(field: &'static str, value: &str) -> (r: Result<(), CoreError>)
    ensures
        outcome(r) == text_issue(field@, value@),
{
    if blank(value) {
        return Err(CoreError::EmptyField(field));
    }
    Ok(())
}

/// Checks that no identifier repeats an earlier one; the first repetition is
/// reported.
pub fn require_unique_ids(entity: &'static str, values: &Vec<String>) -> (r: Result<(), CoreError>)
    ensures
        outcome(r) == duplicate_issue(entity@, texts(values@)),
{
    let ghost ids = texts(values@);
    let n = values.len();
    let mut j: usize = 0;
    while j < n
        invariant
            j <= n,
            n == values@.len(),
            ids == texts(values@),
            first_duplicate(ids) == first_duplicate_from(ids, j as int),
        decreases n - j,
    {
        let mut i: usize = 0;
        let mut found = false;
        while i < j && !found
            invariant
                i <= j < n,
                n == values@.len(),
                ids == texts(values@),
                found ==> exists|k: int| 0 <= k < j && ids[k] == ids[j as int],
                !found ==> forall|k: int| 0 <= k < i ==> ids[k] != ids[j as int],
            decreases j - i + if found { 0int } else { 1int },
        {
            if str_eq(values[i].as_str(), values[j].as_str()) {
                assert(ids[i as int] == ids[j as int]);
                found = true;
            } else {
                i = i + 1;
            }
        }
        if found {
            return Err(CoreError::DuplicateId { entity, id: values[j].clone() });
        }
        j = j + 1;
    }
    Ok(())
}

/// A missing list of evidence.
pub open spec fn evidence_issue(id: Seq<char>, evidence: Seq<String>) -> Option<Issue> {
    if evidence.len() == 0 { Some(Issue::MissingEvidence(id)) } else { None }
}

/// What is wrong with one source coverage.
pub open spec fn coverage_issue(c: SourceCoverage) -> Option<Issue> {
    text_issue("source"@, c.source@)
}

/// What is wrong with one observation: its first blank required field.
pub open spec fn observation_issue(o: Observation) -> Option<Issue> {
    first_of(text_issue("observation id"@, o.id@),
    first_of(text_issue("observation source"@, o.source@),
    first_of(text_issue("observation kind"@, o.kind@),
    first_of(text_issue("observation summary"@, o.summary@),
    text_issue("observation source ref"@, o.source_ref@)))))
}

/// The identifiers of observations.
pub open spec fn observation_ids(v: Seq<Observation>) -> Seq<Seq<char>> {
    v.map_values(|o: Observation| o.id@)
}

/// The sources of coverages.
pub open spec fn coverage_sources(v: Seq<SourceCoverage>) -> Seq<Seq<char>> {
    v.map_values(|c: SourceCoverage| c.source@)
}

/// What is wrong with a batch: its identifier and producer are required,
/// observation identifiers and covered sources are unique, every source is
/// named, and every observation has its required fields; the first problem
/// in that order is reported.
pub open spec fn batch_issue(b: ObservationBatch) -> Option<Issue> {
    first_of(text_issue("observation batch id"@, b.id@),
    first_of(text_issue("producer"@, b.producer@),
    first_of(duplicate_issue("observation"@, observation_ids(b.observations@)),
    first_of(duplicate_issue("source coverage"@, coverage_sources(b.source_coverage@)),
    first_of(first_issue(b.source_coverage@, |c: SourceCoverage| coverage_issue(c)),
    first_issue(b.observations@, |o: Observation| observation_issue(o)))))))
}

pub(crate) fn observation_id_list(v: &Vec<Observation>) -> (r: Vec<String>)
    ensures
        texts(r@) == observation_ids(v@),
{
    let mut out: Vec<String> = Vec::new();
    let mut k: usize = 0;
    while k < v.len()
        invariant
            k <= v@.len(),
            out@.len() == k,
            forall|i: int| 0 <= i < k ==> #[trigger] out@[i]@ == v@[i].id@,
        decreases v@.len() - k,
    {
        out.push(v[k].id.clone());
        k = k + 1;
    }
    proof { assert(texts(out@) =~= observation_ids(v@)); }
    out
}

pub(crate) fn coverage_source_list(v: &Vec<SourceCoverage>) -> (r: Vec<String>)
    ensures
        texts(r@) == coverage_sources(v@),
{
    let mut out: Vec<String> = Vec::new();
    let mut k: usize = 0;
    while k < v.len()
        invariant
            k <= v@.len(),
            out@.len() == k,
            forall|i: int| 0 <= i < k ==> #[trigger] out@[i]@ == v@[i].source@,
        decreases v@.len() - k,
    {
        out.push(v[k].source.clone());
        k = k + 1;
    }
    proof { assert(texts(out@) =~= coverage_sources(v@)); }
    out
}

fn check_observation(o: &Observation) -> (r: Result<(), CoreError>)
    ensures
        outcome(r) == observation_issue(*o),
{
    require_text("observation id", o.id.as_str())?;
    require_text("observation source", o.source.as_str())?;
    require_text("observation kind", o.kind.as_str())?;
    require_text("observation summary", o.summary.as_str())?;
    require_text("observation source ref", o.source_ref.as_str())?;
    Ok(())
}

impl ObservationBatch {
    /// Checks the batch; see [`batch_issue`] for the order of the checks.
    pub fn validate(&self) -> (r: Result<(), CoreError>)
        ensures
            outcome(r) == batch_issue(*self),
    {
        require_text("observation batch id", self.id.as_str())?;
        require_text("producer", self.producer.as_str())?;
        let ids = observation_id_list(&self.observations);
        require_unique_ids("observation", &ids)?;
        let sources = coverage_source_list(&self.source_coverage);
        require_unique_ids("source coverage", &sources)?;
        let ghost fc = |c: SourceCoverage| coverage_issue(c);
        let ghost fo = |o: Observation| observation_issue(o);
        proof { lemma_first_issue_ends(self.source_coverage@, fc); }
        let mut k: usize = 0;
        while k < self.source_coverage.len()
            invariant
                k <= self.source_coverage@.len(),
                fc == (|c: SourceCoverage| coverage_issue(c)),
                fo == (|o: Observation| observation_issue(o)),
                batch_issue(*self) == first_of(first_issue(self.source_coverage@, fc), first_issue(self.observations@, fo)),
                first_issue(self.source_coverage@, fc) == first_issue(self.source_coverage@.skip(k as int), fc),
            decreases self.source_coverage@.len() - k,
        {
            proof { lemma_first_issue_step(self.source_coverage@, fc, k as int); }
            require_text("source", self.source_coverage[k].source.as_str())?;
            k = k + 1;
        }
        proof { lemma_first_issue_ends(self.observations@, fo); }
        let mut k: usize = 0;
        while k < self.observations.len()
            invariant
                k <= self.observations@.len(),
                fc == (|c: SourceCoverage| coverage_issue(c)),
                fo == (|o: Observation| observation_issue(o)),
                first_issue(self.source_coverage@, fc) is None,
                batch_issue(*self) == first_of(first_issue(self.source_coverage@, fc), first_issue(self.observations@, fo)),
                first_issue(self.observations@, fo) == first_issue(self.observations@.skip(k as int), fo),
            decreases self.observations@.len() - k,
        {
            proof { lemma_first_issue_step(self.observations@, fo, k as int); }
            check_observation(&self.observations[k])?;
            k = k + 1;
        }
        Ok(())
    }
}

/// A brief must hold one to three items.
pub open spec fn count_issue(n: int) -> Option<Issue> {
    if n == 0 || n > MAX_BRIEF_ITEMS { Some(Issue::ItemCount(n, MAX_BRIEF_ITEMS as int)) } else { None }
}

/// An item to explore must carry a positive timebox.
pub open spec fn explore_issue(i: BriefItem) -> Option<Issue> {
    if i.disposition == BriefDisposition::Explore && match i.exploration_minutes {
        Some(m) => m == 0,
        None => true,
    } {
        Some(Issue::ExplorationMinutes(i.id@))
    } else {
        None
    }
}

/// What is wrong with one brief item: a blank identifier, title or reason,
/// an exploration without timebox, missing or repeated evidence.
pub open spec fn item_issue(i: BriefItem) -> Option<Issue> {
    first_of(text_issue("brief item id"@, i.id@),
    first_of(text_issue("brief item title"@, i.title@),
    first_of(text_issue("brief item reason"@, i.reason@),
    first_of(explore_issue(i),
    first_of(evidence_issue(i.id@, i.evidence_ids@),
    duplicate_issue("evidence"@, texts(i.evidence_ids@)))))))
}

/// The identifiers of brief items.
pub open spec fn item_ids(v: Seq<BriefItem>) -> Seq<Seq<char>> {
    v.map_values(|i: BriefItem| i.id@)
}

/// What is wrong with a brief proposal: its identifier and batch are
/// required, it holds one to three items with unique identifiers, and each
/// item is complete and evidence-backed.
pub open spec fn brief_issue(p: BriefProposal) -> Option<Issue> {
    first_of(text_issue("brief proposal id"@, p.id@),
    first_of(text_issue("observation batch id"@, p.batch_id@),
    first_of(count_issue(p.items@.len() as int),
    first_of(duplicate_issue("brief item"@, item_ids(p.items@)),
    first_issue(p.items@, |i: BriefItem| item_issue(i))))))
}

pub(crate) fn item_id_list(v: &Vec<BriefItem>) -> (r: Vec<String>)
    ensures
        texts(r@) == item_ids(v@),
{
    let mut out: Vec<String> = Vec::new();
    let mut k: usize = 0;
    while k < v.len()
        invariant
            k <= v@.len(),
            out@.len() == k,
            forall|i: int| 0 <= i < k ==> #[trigger] out@[i]@ == v@[i].id@,
        decreases v@.len() - k,
    {
        out.push(v[k].id.clone());
        k = k + 1;
    }
    proof { assert(texts(out@) =~= item_ids(v@)); }
    out
}

fn check_item(i: &BriefItem) -> (r: Result<(), CoreError>)
    ensures
        outcome(r) == item_issue(*i),
{
    require_text("brief item id", i.id.as_str())?;
    require_text("brief item title", i.title.as_str())?;
    require_text("brief item reason", i.reason.as_str())?;
    if i.disposition == BriefDisposition::Explore {
        let positive = match i.exploration_minutes {
            Some(m) => m != 0,
            None => false,
        };
        if !positive {
            return Err(CoreError::InvalidExplorationMinutes { item_id: i.id.clone() });
        }
    }
    if i.evidence_ids.len() == 0 {
        return Err(CoreError::MissingEvidence { item_id: i.id.clone() });
    }
    require_unique_ids("evidence", &i.evidence_ids)?;
    Ok(())
}

impl BriefProposal {
    /// Checks the proposal; see [`brief_issue`] for the order of the checks.
    pub fn validate(&self) -> (r: Result<(), CoreError>)
        ensures
            outcome(r) == brief_issue(*self),
    {
        require_text("brief proposal id", self.id.as_str())?;
        require_text("observation batch id", self.batch_id.as_str())?;
        if self.items.len() == 0 || self.items.len() > MAX_BRIEF_ITEMS {
            return Err(CoreError::InvalidBriefItemCount { count: self.items.len(), max: MAX_BRIEF_ITEMS });
        }
        let ids = item_id_list(&self.items);
        require_unique_ids("brief item", &ids)?;
        let ghost fi = |i: BriefItem| item_issue(i);
        proof { lemma_first_issue_ends(self.items@, fi); }
        let mut k: usize = 0;
        while k < self.items.len()
            invariant
                k <= self.items@.len(),
                fi == (|i: BriefItem| item_issue(i)),
                brief_issue(*self) == first_issue(self.items@, fi),
                first_issue(self.items@, fi) == first_issue(self.items@.skip(k as int), fi),
            decreases self.items@.len() - k,
        {
            proof { lemma_first_issue_step(self.items@, fi, k as int); }
            check_item(&self.items[k])?;
            k = k + 1;
        }
        Ok(())
    }
}

/// What is wrong with one proposed decision.
pub open spec fn decision_issue(d: ProposedDecision) -> Option<Issue> {
    first_of(text_issue("proposed decision id"@, d.id@),
    first_of(text_issue("decision candidate id"@, d.candidate_id@),
    first_of(text_issue("decision"@, d.decision@),
    evidence_issue(d.id@, d.evidence_ids@))))
}

/// What is wrong with one proposed curiosity capture.
pub open spec fn capture_issue(c: ProposedCuriosityCapture) -> Option<Issue> {
    first_of(text_issue("proposed curiosity capture id"@, c.id@),
    first_of(text_issue("curiosity question"@, c.question@),
    evidence_issue(c.id@, c.evidence_ids@)))
}

/// What is wrong with a proposed return anchor.
pub open spec fn anchor_issue(a: Option<ProposedReturnAnchor>) -> Option<Issue> {
    match a {
        Some(a) => first_of(text_issue("proposed return anchor id"@, a.id@),
            first_of(text_issue("return anchor label"@, a.label@),
            first_of(text_issue("return anchor resume point"@, a.resume_point@),
            text_issue("return anchor next action"@, a.next_action@)))),
        None => None,
    }
}

/// The identifiers of proposed decisions.
pub open spec fn decision_ids(v: Seq<ProposedDecision>) -> Seq<Seq<char>> {
    v.map_values(|d: ProposedDecision| d.id@)
}

/// The identifiers of proposed curiosity captures.
pub open spec fn capture_ids(v: Seq<ProposedCuriosityCapture>) -> Seq<Seq<char>> {
    v.map_values(|c: ProposedCuriosityCapture| c.id@)
}

/// What is wrong with a triage proposal: its identifier and brief are
/// required, decision and capture identifiers are unique, every decision and
/// capture is complete and evidence-backed, and a return anchor is complete.
pub open spec fn triage_issue(p: TriageProposal) -> Option<Issue> {
    first_of(text_issue("triage proposal id"@, p.id@),
    first_of(text_issue("brief proposal id"@, p.brief_proposal_id@),
    first_of(duplicate_issue("proposed decision"@, decision_ids(p.decisions@)),
    first_of(duplicate_issue("proposed curiosity capture"@, capture_ids(p.curiosity_captures@)),
    first_of(first_issue(p.decisions@, |d: ProposedDecision| decision_issue(d)),
    first_of(first_issue(p.curiosity_captures@, |c: ProposedCuriosityCapture| capture_issue(c)),
    anchor_issue(p.return_anchor)))))))
}

pub(crate) fn decision_id_list(v: &Vec<ProposedDecision>) -> (r: Vec<String>)
    ensures
        texts(r@) == decision_ids(v@),
{
    let mut out: Vec<String> = Vec::new();
    let mut k: usize = 0;
    while k < v.len()
        invariant
            k <= v@.len(),
            out@.len() == k,
            forall|i: int| 0 <= i < k ==> #[trigger] out@[i]@ == v@[i].id@,
        decreases v@.len() - k,
    {
        out.push(v[k].id.clone());
        k = k + 1;
    }
    proof { assert(texts(out@) =~= decision_ids(v@)); }
    out
}

pub(crate) fn capture_id_list(v: &Vec<ProposedCuriosityCapture>) -> (r: Vec<String>)
    ensures
        texts(r@) == capture_ids(v@),
{
    let mut out: Vec<String> = Vec::new();
    let mut k: usize = 0;
    while k < v.len()
        invariant
            k <= v@.len(),
            out@.len() == k,
            forall|i: int| 0 <= i < k ==> #[trigger] out@[i]@ == v@[i].id@,
        decreases v@.len() - k,
    {
        out.push(v[k].id.clone());
        k = k + 1;
    }
    proof { assert(texts(out@) =~= capture_ids(v@)); }
    out
}

fn check_decision(d: &ProposedDecision) -> (r: Result<(), CoreError>)
    ensures
        outcome(r) == decision_issue(*d),
{
    require_text("proposed decision id", d.id.as_str())?;
    require_text("decision candidate id", d.candidate_id.as_str())?;
    require_text("decision", d.decision.as_str())?;
    if d.evidence_ids.len() == 0 {
        return Err(CoreError::MissingEvidence { item_id: d.id.clone() });
    }
    Ok(())
}

fn check_capture(c: &ProposedCuriosityCapture) -> (r: Result<(), CoreError>)
    ensures
        outcome(r) == capture_issue(*c),
{
    require_text("proposed curiosity capture id", c.id.as_str())?;
    require_text("curiosity question", c.question.as_str())?;
    if c.evidence_ids.len() == 0 {
        return Err(CoreError::MissingEvidence { item_id: c.id.clone() });
    }
    Ok(())
}

fn check_anchor(a: &Option<ProposedReturnAnchor>) -> (r: Result<(), CoreError>)
    ensures
        outcome(r) == anchor_issue(*a),
{
    if let Some(anchor) = a {
        require_text("proposed return anchor id", anchor.id.as_str())?;
        require_text("return anchor label", anchor.label.as_str())?;
        require_text("return anchor resume point", anchor.resume_point.as_str())?;
        require_text("return anchor next action", anchor.next_action.as_str())?;
    }
    Ok(())
}

impl TriageProposal {
    /// Checks the proposal; see [`triage_issue`] for the order of the checks.
    pub fn validate(&self) -> (r: Result<(), CoreError>)
        ensures
            outcome(r) == triage_issue(*self),
    {
        require_text("triage proposal id", self.id.as_str())?;
        require_text("brief proposal id", self.brief_proposal_id.as_str())?;
        let ids = decision_id_list(&self.decisions);
        require_unique_ids("proposed decision", &ids)?;
        let ids = capture_id_list(&self.curiosity_captures);
        require_unique_ids("proposed curiosity capture", &ids)?;
        let ghost fd = |d: ProposedDecision| decision_issue(d);
        let ghost fc = |c: ProposedCuriosityCapture| capture_issue(c);
        proof {
            lemma_first_issue_ends(self.decisions@, fd);
            lemma_first_issue_ends(self.curiosity_captures@, fc);
        }
        let mut k: usize = 0;
        while k < self.decisions.len()
            invariant
                k <= self.decisions@.len(),
                fd == (|d: ProposedDecision| decision_issue(d)),
                fc == (|c: ProposedCuriosityCapture| capture_issue(c)),
                triage_issue(*self) == first_of(first_issue(self.decisions@, fd),
                    first_of(first_issue(self.curiosity_captures@, fc), anchor_issue(self.return_anchor))),
                first_issue(self.decisions@, fd) == first_issue(self.decisions@.skip(k as int), fd),
            decreases self.decisions@.len() - k,
        {
            proof { lemma_first_issue_step(self.decisions@, fd, k as int); }
            check_decision(&self.decisions[k])?;
            k = k + 1;
        }
        let mut k: usize = 0;
        while k < self.curiosity_captures.len()
            invariant
                k <= self.curiosity_captures@.len(),
                fc == (|c: ProposedCuriosityCapture| capture_issue(c)),
                triage_issue(*self) == first_of(first_issue(self.curiosity_captures@, fc), anchor_issue(self.return_anchor)),
                first_issue(self.curiosity_captures@, fc) == first_issue(self.curiosity_captures@.skip(k as int), fc),
            decreases self.curiosity_captures@.len() - k,
        {
            proof { lemma_first_issue_step(self.curiosity_captures@, fc, k as int); }
            check_capture(&self.curiosity_captures[k])?;
            k = k + 1;
        }
        check_anchor(&self.return_anchor)
    }
}

/// A copy of a list of strings.
pub fn copy_strings(v: &Vec<String>) -> (r: Vec<String>)
    ensures
        r@ == v@,
{
    let mut out: Vec<String> = Vec::new();
    let mut k: usize = 0;
    while k < v.len()
        invariant
            k <= v@.len(),
            out@ == v@.take(k as int),
        decreases v@.len() - k,
    {
        out.push(v[k].clone());
        proof { assert(v@.take(k + 1) =~= v@.take(k as int).push(v@[k as int])); }
        k = k + 1;
    }
    proof { assert(v@.take(v@.len() as int) =~= v@); }
    out
}


/// A brief proposal is accepted only when it holds one to three items; with
/// both identifiers given, an empty brief or one of more than three items is
/// refused for its item count.
pub proof fn law_brief_holds_one_to_three_items(p: BriefProposal)
    ensures
        brief_issue(p) is None ==> 1 <= p.items@.len() <= 3,
        !is_blank(p.id@) && !is_blank(p.batch_id@) && (p.items@.len() == 0 || p.items@.len() > 3)
            ==> brief_issue(p) == Some(Issue::ItemCount(p.items@.len() as int, 3)),
{
}

} // verus!
