//! The store's rules for agent proposals: what an ingest does with a batch
//! that was already stored, what a proposal must cite, and what a user's
//! confirmation turns into decisions, captures and anchors.
use vstd::prelude::*;

use crate::attention::{
    item_ids, BriefItem, capture_ids, decision_ids, texts, BriefProposal, CuriosityCapture, ProposedCuriosityCapture,
    ProposedDecision, ProposedReturnAnchor, ReturnAnchor, TriageConfirmation, TriageProposal,
    UserDecision,
};
use crate::focus::CoreError;
use crate::instant::Timestamp;
use crate::text::{lemma_text_lt_irreflexive, lemma_text_lt_transitive, lemma_text_lt_trichotomy, str_eq, text_lt, text_order};

verus! {

/// What the store refuses, by its own rules.
#[derive(Debug, Clone, PartialEq, Eq)]
pub enum StoreRefusal {
    /// The identifier was stored before with different content.
    IdempotencyConflict { entity: &'static str, id: String },
    /// A cited entity does not exist.
    NotFound { entity: &'static str, id: String },
    /// The triage proposal was confirmed before.
    AlreadyConfirmed(String),
    /// The confirmation selected something the proposal does not hold.
    UnknownSelection { entity: &'static str, id: String },
    /// The value failed its own validation.
    Invalid(CoreError),
}

/// What an ingest did with a batch.
#[derive(Debug, Clone, Copy, PartialEq, Eq, Structural)]
pub enum IngestOutcome {
    Inserted,
    AlreadyPresent,
}

/// What storing a payload under an identifier amounts to.
#[derive(Debug, Clone, Copy, PartialEq, Eq, Structural)]
pub enum StoreAction {
    /// Nothing is stored under the identifier yet: insert.
    Insert,
    /// The same payload is already stored: nothing to do.
    Keep,
}

/// Storing is idempotent: the same payload again is kept, a different one
/// under the same identifier is a conflict.
pub fn idempotent_store(entity: &'static str, id: &str, existing: Option<&str>, payload: &str) -> (r: Result<StoreAction, StoreRefusal>)
    ensures
        match existing {
            None => r == Ok::<StoreAction, StoreRefusal>(StoreAction::Insert),
            Some(e) => if e@ == payload@ {
                r == Ok::<StoreAction, StoreRefusal>(StoreAction::Keep)
            } else {
                r matches Err(StoreRefusal::IdempotencyConflict { entity: en, id: i }) && en == entity && i@ == id@
            },
        },
{
    match existing {
        None => Ok(StoreAction::Insert),
        Some(e) => if str_eq(e, payload) {
            Ok(StoreAction::Keep)
        } else {
            Err(StoreRefusal::IdempotencyConflict { entity, id: id.to_string() })
        },
    }
}

/// The outcome of ingesting a batch, given what is stored under its
/// identifier: inserted, already present, or a conflict.
pub fn ingest_outcome(id: &str, existing: Option<&str>, payload: &str) -> (r: Result<IngestOutcome, StoreRefusal>)
    ensures
        match existing {
            None => r == Ok::<IngestOutcome, StoreRefusal>(IngestOutcome::Inserted),
            Some(e) => if e@ == payload@ {
                r == Ok::<IngestOutcome, StoreRefusal>(IngestOutcome::AlreadyPresent)
            } else {
                r matches Err(StoreRefusal::IdempotencyConflict { entity: en, id: i }) && en@ == "observation batch"@ && i@ == id@
            },
        },
{
    match idempotent_store("observation batch", id, existing, payload) {
        Ok(StoreAction::Insert) => Ok(IngestOutcome::Inserted),
        Ok(StoreAction::Keep) => Ok(IngestOutcome::AlreadyPresent),
        Err(e) => Err(e),
    }
}

/// Whether a text is one of the texts.
pub open spec fn listed(v: Seq<Seq<char>>, x: Seq<char>) -> bool {
    exists|i: int| 0 <= i < v.len() && v[i] == x
}

fn find_text(v: &Vec<String>, x: &str) -> (r: bool)
    ensures
        r == listed(texts(v@), x@),
{
    let mut k: usize = 0;
    while k < v.len()
        invariant
            k <= v@.len(),
            forall|i: int| 0 <= i < k ==> v@[i]@ != x@,
        decreases v@.len() - k,
    {
        if str_eq(v[k].as_str(), x) {
            proof { assert(texts(v@)[k as int] == x@); }
            return true;
        }
        k = k + 1;
    }
    proof {
        if listed(texts(v@), x@) {
            let i = choose|i: int| 0 <= i < texts(v@).len() && texts(v@)[i] == x@;
            assert(v@[i]@ == x@);
        }
    }
    false
}

/// Whether every selected identifier is available.
pub open spec fn all_known(selected: Seq<String>, available: Seq<Seq<char>>) -> bool {
    forall|i: int| 0 <= i < selected.len() ==> listed(available, #[trigger] selected[i]@)
}

/// Whether `id` is the least selected identifier, in text order, that is
/// not available.
pub open spec fn least_unknown(id: Seq<char>, selected: Seq<String>, available: Seq<Seq<char>>) -> bool {
    &&& listed(texts(selected), id)
    &&& !listed(available, id)
    &&& forall|i: int| 0 <= i < selected.len() && !listed(available, #[trigger] selected[i]@)
            ==> !text_lt(selected[i]@, id)
}

/// Whether a refusal reports the least unknown selection of an entity.
pub open spec fn unknown_selection(e: StoreRefusal, entity: Seq<char>, selected: Seq<String>, available: Seq<Seq<char>>) -> bool {
    e matches StoreRefusal::UnknownSelection { entity: en, id } && en@ == entity && least_unknown(id@, selected, available)
}

/// Checks that every selected identifier is available. When some are not,
/// the least of them in text order is reported.
pub fn check_selection(entity: &'static str, selected: &Vec<String>, available: &Vec<String>) -> (r: Result<(), StoreRefusal>)
    ensures
        r is Ok <==> all_known(selected@, texts(available@)),
        r matches Err(e) ==> unknown_selection(e, entity@, selected@, texts(available@)),
{
    let mut best: Option<usize> = None;
    let mut k: usize = 0;
    while k < selected.len()
        invariant
            k <= selected@.len(),
            match best {
                None => forall|i: int| 0 <= i < k ==> listed(texts(available@), #[trigger] selected@[i]@),
                Some(b) => b < k && !listed(texts(available@), selected@[b as int]@)
                    && forall|i: int| 0 <= i < k && !listed(texts(available@), #[trigger] selected@[i]@)
                        ==> !text_lt(selected@[i]@, selected@[b as int]@),
            },
        decreases selected@.len() - k,
    {
        let known = find_text(available, selected[k].as_str());
        if !known {
            match best {
                None => {
                    proof { lemma_text_lt_irreflexive(selected@[k as int]@); }
                    best = Some(k);
                },
                Some(b) => {
                    let order = text_order(selected[k].as_str(), selected[b].as_str());
                    if order < 0 {
                        proof {
                            lemma_text_lt_irreflexive(selected@[k as int]@);
                            assert forall|i: int| 0 <= i <= k && !listed(texts(available@), #[trigger] selected@[i]@)
                                implies !text_lt(selected@[i]@, selected@[k as int]@) by {
                                if i < k && text_lt(selected@[i]@, selected@[k as int]@) {
                                    lemma_text_lt_transitive(selected@[i]@, selected@[k as int]@, selected@[b as int]@);
                                }
                            }
                        }
                        best = Some(k);
                    } else {
                        proof {
                            lemma_text_lt_trichotomy(selected@[k as int]@, selected@[b as int]@);
                            lemma_text_lt_irreflexive(selected@[b as int]@);
                        }
                    }
                },
            }
        }
        k = k + 1;
    }
    match best {
        None => Ok(()),
        Some(b) => {
            proof { assert(texts(selected@)[b as int] == selected@[b as int]@); }
            Err(StoreRefusal::UnknownSelection { entity, id: selected[b].clone() })
        },
    }
}

/// The proposed decisions whose identifiers were selected, in proposal order.
pub open spec fn chosen_decisions(ds: Seq<ProposedDecision>, selected: Seq<Seq<char>>) -> Seq<ProposedDecision>
    decreases ds.len(),
{
    if ds.len() == 0 {
        seq![]
    } else {
        let rest = chosen_decisions(ds.drop_last(), selected);
        if listed(selected, ds.last().id@) { rest.push(ds.last()) } else { rest }
    }
}

/// The proposed captures whose identifiers were selected, in proposal order.
pub open spec fn chosen_captures(cs: Seq<ProposedCuriosityCapture>, selected: Seq<Seq<char>>) -> Seq<ProposedCuriosityCapture>
    decreases cs.len(),
{
    if cs.len() == 0 {
        seq![]
    } else {
        let rest = chosen_captures(cs.drop_last(), selected);
        if listed(selected, cs.last().id@) { rest.push(cs.last()) } else { rest }
    }
}

/// A user decision that records a proposed decision of a proposal at an
/// instant.
pub open spec fn decision_record(u: UserDecision, d: ProposedDecision, proposal_id: Seq<char>, at: Timestamp) -> bool {
    &&& u.id@ == d.id@
    &&& u.proposal_id@ == proposal_id
    &&& u.candidate_id@ == d.candidate_id@
    &&& u.decision@ == d.decision@
    &&& u.evidence_ids@ == d.evidence_ids@
    &&& u.decided_at == at
}

/// A capture that records a proposed capture of a proposal at an instant.
pub open spec fn capture_record(u: CuriosityCapture, c: ProposedCuriosityCapture, proposal_id: Seq<char>, at: Timestamp) -> bool {
    &&& u.id@ == c.id@
    &&& u.proposal_id@ == proposal_id
    &&& u.question@ == c.question@
    &&& u.evidence_ids@ == c.evidence_ids@
    &&& u.captured_at == at
}

/// An anchor that records a proposed anchor of a proposal at an instant.
pub open spec fn anchor_record(u: ReturnAnchor, a: ProposedReturnAnchor, proposal_id: Seq<char>, at: Timestamp) -> bool {
    &&& u.id@ == a.id@
    &&& u.proposal_id@ == proposal_id
    &&& u.label@ == a.label@
    &&& u.resume_point@ == a.resume_point@
    &&& u.next_action@ == a.next_action@
    &&& u.saved_at == at
}

/// What a confirmation materialized.
#[derive(Debug, Clone, PartialEq, Eq)]
pub struct ConfirmedTriage {
    pub decisions: Vec<UserDecision>,
    pub curiosity_captures: Vec<CuriosityCapture>,
    pub return_anchor: Option<ReturnAnchor>,
}

/// A stored triage proposal and whether the user confirmed it.
#[derive(Debug, Clone, PartialEq, Eq)]
pub struct StoredTriageProposal {
    pub proposal: TriageProposal,
    pub confirmed: bool,
}

/// Whether a confirmation result holds exactly the selected elements of the
/// proposal, in proposal order, recorded at `at`.
pub open spec fn confirmed_as(c: ConfirmedTriage, p: TriageProposal, conf: TriageConfirmation, at: Timestamp) -> bool {
    let ds = chosen_decisions(p.decisions@, texts(conf.decision_ids@));
    let cs = chosen_captures(p.curiosity_captures@, texts(conf.curiosity_capture_ids@));
    &&& c.decisions@.len() == ds.len()
    &&& forall|i: int| 0 <= i < ds.len() ==> decision_record(#[trigger] c.decisions@[i], ds[i], p.id@, at)
    &&& c.curiosity_captures@.len() == cs.len()
    &&& forall|i: int| 0 <= i < cs.len() ==> capture_record(#[trigger] c.curiosity_captures@[i], cs[i], p.id@, at)
    &&& match c.return_anchor {
        Some(a) => conf.accept_return_anchor && (p.return_anchor matches Some(pa) && anchor_record(a, pa, p.id@, at)),
        None => !conf.accept_return_anchor,
    }
}

/// A proposal confirmed before cannot be confirmed again.
pub fn require_unconfirmed(proposal_id: &str, previously_confirmed: bool) -> (r: Result<(), StoreRefusal>)
    ensures
        previously_confirmed <==> r is Err,
        r matches Err(e) ==> e matches StoreRefusal::AlreadyConfirmed(id) && id@ == proposal_id@,
{
    if previously_confirmed {
        return Err(StoreRefusal::AlreadyConfirmed(proposal_id.to_string()));
    }
    Ok(())
}

/// Materializes only what the user selected of a triage proposal. Every
/// selected decision and capture must exist in the proposal (the least
/// unknown one is reported otherwise), and an accepted return anchor must be
/// proposed.
pub fn confirm_triage(proposal: &TriageProposal, confirmation: &TriageConfirmation, confirmed_at: Timestamp) -> (r: Result<ConfirmedTriage, StoreRefusal>)
    ensures
        ({
            let dav = decision_ids(proposal.decisions@);
            let cav = capture_ids(proposal.curiosity_captures@);
            if !all_known(confirmation.decision_ids@, dav) {
                r matches Err(e) && unknown_selection(e, "proposed decision"@, confirmation.decision_ids@, dav)
            } else if !all_known(confirmation.curiosity_capture_ids@, cav) {
                r matches Err(e) && unknown_selection(e, "proposed curiosity capture"@, confirmation.curiosity_capture_ids@, cav)
            } else if confirmation.accept_return_anchor && proposal.return_anchor is None {
                r matches Err(StoreRefusal::UnknownSelection { entity, id }) && entity@ == "proposed return anchor"@ && id@ == proposal.id@
            } else {
                r matches Ok(c) && confirmed_as(c, *proposal, *confirmation, confirmed_at)
            }
        }),
{
    let available = crate::attention::decision_id_list(&proposal.decisions);
    check_selection("proposed decision", &confirmation.decision_ids, &available)?;
    let available = crate::attention::capture_id_list(&proposal.curiosity_captures);
    check_selection("proposed curiosity capture", &confirmation.curiosity_capture_ids, &available)?;
    if confirmation.accept_return_anchor && proposal.return_anchor.is_none() {
        return Err(StoreRefusal::UnknownSelection { entity: "proposed return anchor", id: proposal.id.clone() });
    }
    let ghost dsel = texts(confirmation.decision_ids@);
    let ghost csel = texts(confirmation.curiosity_capture_ids@);
    let mut decisions: Vec<UserDecision> = Vec::new();
    let mut k: usize = 0;
    while k < proposal.decisions.len()
        invariant
            k <= proposal.decisions@.len(),
            dsel == texts(confirmation.decision_ids@),
            decisions@.len() == chosen_decisions(proposal.decisions@.take(k as int), dsel).len(),
            forall|i: int| 0 <= i < decisions@.len() ==> decision_record(#[trigger] decisions@[i],
                chosen_decisions(proposal.decisions@.take(k as int), dsel)[i], proposal.id@, confirmed_at),
        decreases proposal.decisions@.len() - k,
    {
        let d = &proposal.decisions[k];
        proof { assert(proposal.decisions@.take(k + 1).drop_last() =~= proposal.decisions@.take(k as int)); }
        if find_text(&confirmation.decision_ids, d.id.as_str()) {
            decisions.push(UserDecision {
                id: d.id.clone(),
                proposal_id: proposal.id.clone(),
                candidate_id: d.candidate_id.clone(),
                decision: d.decision.clone(),
                evidence_ids: crate::attention::copy_strings(&d.evidence_ids),
                decided_at: confirmed_at,
            });
        }
        k = k + 1;
    }
    proof { assert(proposal.decisions@.take(proposal.decisions@.len() as int) =~= proposal.decisions@); }
    let mut captures: Vec<CuriosityCapture> = Vec::new();
    let mut k: usize = 0;
    while k < proposal.curiosity_captures.len()
        invariant
            k <= proposal.curiosity_captures@.len(),
            csel == texts(confirmation.curiosity_capture_ids@),
            captures@.len() == chosen_captures(proposal.curiosity_captures@.take(k as int), csel).len(),
            forall|i: int| 0 <= i < captures@.len() ==> capture_record(#[trigger] captures@[i],
                chosen_captures(proposal.curiosity_captures@.take(k as int), csel)[i], proposal.id@, confirmed_at),
        decreases proposal.curiosity_captures@.len() - k,
    {
        let c = &proposal.curiosity_captures[k];
        proof { assert(proposal.curiosity_captures@.take(k + 1).drop_last() =~= proposal.curiosity_captures@.take(k as int)); }
        if find_text(&confirmation.curiosity_capture_ids, c.id.as_str()) {
            captures.push(CuriosityCapture {
                id: c.id.clone(),
                proposal_id: proposal.id.clone(),
                question: c.question.clone(),
                evidence_ids: crate::attention::copy_strings(&c.evidence_ids),
                captured_at: confirmed_at,
            });
        }
        k = k + 1;
    }
    proof { assert(proposal.curiosity_captures@.take(proposal.curiosity_captures@.len() as int) =~= proposal.curiosity_captures@); }
    let return_anchor = if confirmation.accept_return_anchor {
        match &proposal.return_anchor {
            Some(a) => Some(ReturnAnchor {
                id: a.id.clone(),
                proposal_id: proposal.id.clone(),
                label: a.label.clone(),
                resume_point: a.resume_point.clone(),
                next_action: a.next_action.clone(),
                saved_at: confirmed_at,
            }),
            None => None,
        }
    } else {
        None
    };
    Ok(ConfirmedTriage { decisions, curiosity_captures: captures, return_anchor })
}

proof fn lemma_chosen_decisions(ds: Seq<ProposedDecision>, selected: Seq<Seq<char>>)
    ensures
        forall|i: int| 0 <= i < chosen_decisions(ds, selected).len() ==> {
            &&& listed(selected, #[trigger] chosen_decisions(ds, selected)[i].id@)
            &&& exists|j: int| 0 <= j < ds.len() && ds[j] == chosen_decisions(ds, selected)[i]
        },
        selected.len() == 0 ==> chosen_decisions(ds, selected).len() == 0,
    decreases ds.len(),
{
    if ds.len() > 0 {
        let front = ds.drop_last();
        lemma_chosen_decisions(front, selected);
        let c = chosen_decisions(ds, selected);
        assert forall|i: int| 0 <= i < c.len() implies {
            &&& listed(selected, #[trigger] c[i].id@)
            &&& exists|j: int| 0 <= j < ds.len() && ds[j] == c[i]
        } by {
            let rest = chosen_decisions(front, selected);
            if i < rest.len() {
                assert(c[i] == rest[i]);
                assert(listed(selected, chosen_decisions(front, selected)[i].id@));
                let j = choose|j: int| 0 <= j < front.len() && front[j] == rest[i];
                assert(front[j] == ds.subrange(0, ds.len() - 1)[j]);
                assert(ds[j] == front[j]);
            } else {
                assert(c[i] == ds.last());
                assert(ds[ds.len() - 1] == ds.last());
            }
        }
    }
}

proof fn lemma_chosen_captures(cs: Seq<ProposedCuriosityCapture>, selected: Seq<Seq<char>>)
    ensures
        forall|i: int| 0 <= i < chosen_captures(cs, selected).len() ==> {
            &&& listed(selected, #[trigger] chosen_captures(cs, selected)[i].id@)
            &&& exists|j: int| 0 <= j < cs.len() && cs[j] == chosen_captures(cs, selected)[i]
        },
        selected.len() == 0 ==> chosen_captures(cs, selected).len() == 0,
    decreases cs.len(),
{
    if cs.len() > 0 {
        let front = cs.drop_last();
        lemma_chosen_captures(front, selected);
        let c = chosen_captures(cs, selected);
        assert forall|i: int| 0 <= i < c.len() implies {
            &&& listed(selected, #[trigger] c[i].id@)
            &&& exists|j: int| 0 <= j < cs.len() && cs[j] == c[i]
        } by {
            let rest = chosen_captures(front, selected);
            if i < rest.len() {
                assert(c[i] == rest[i]);
                assert(listed(selected, chosen_captures(front, selected)[i].id@));
                let j = choose|j: int| 0 <= j < front.len() && front[j] == rest[i];
                assert(front[j] == cs.subrange(0, cs.len() - 1)[j]);
                assert(cs[j] == front[j]);
            } else {
                assert(c[i] == cs.last());
                assert(cs[cs.len() - 1] == cs.last());
            }
        }
    }
}

/// A confirmation materializes only what the user selected: each decision
/// and capture it records was proposed and selected by identifier, it is
/// stamped with the confirmation's instant and proposal, and the anchor is
/// kept only when accepted.
pub proof fn law_confirmation_materializes_only_selected(c: ConfirmedTriage, p: TriageProposal, conf: TriageConfirmation, at: Timestamp)
    requires
        confirmed_as(c, p, conf, at),
    ensures
        forall|i: int| 0 <= i < c.decisions@.len() ==> {
            &&& listed(texts(conf.decision_ids@), #[trigger] c.decisions@[i].id@)
            &&& exists|j: int| 0 <= j < p.decisions@.len() && p.decisions@[j].id@ == c.decisions@[i].id@
            &&& c.decisions@[i].proposal_id@ == p.id@
            &&& c.decisions@[i].decided_at == at
        },
        forall|i: int| 0 <= i < c.curiosity_captures@.len() ==> {
            &&& listed(texts(conf.curiosity_capture_ids@), #[trigger] c.curiosity_captures@[i].id@)
            &&& exists|j: int| 0 <= j < p.curiosity_captures@.len() && p.curiosity_captures@[j].id@ == c.curiosity_captures@[i].id@
            &&& c.curiosity_captures@[i].proposal_id@ == p.id@
            &&& c.curiosity_captures@[i].captured_at == at
        },
        c.return_anchor is Some ==> conf.accept_return_anchor,
{
    let ds = chosen_decisions(p.decisions@, texts(conf.decision_ids@));
    let cs = chosen_captures(p.curiosity_captures@, texts(conf.curiosity_capture_ids@));
    lemma_chosen_decisions(p.decisions@, texts(conf.decision_ids@));
    lemma_chosen_captures(p.curiosity_captures@, texts(conf.curiosity_capture_ids@));
    assert forall|i: int| 0 <= i < c.decisions@.len() implies {
        &&& listed(texts(conf.decision_ids@), #[trigger] c.decisions@[i].id@)
        &&& exists|j: int| 0 <= j < p.decisions@.len() && p.decisions@[j].id@ == c.decisions@[i].id@
        &&& c.decisions@[i].proposal_id@ == p.id@
        &&& c.decisions@[i].decided_at == at
    } by {
        assert(decision_record(c.decisions@[i], ds[i], p.id@, at));
        assert(listed(texts(conf.decision_ids@), ds[i].id@));
        let j = choose|j: int| 0 <= j < p.decisions@.len() && p.decisions@[j] == ds[i];
        assert(p.decisions@[j].id@ == c.decisions@[i].id@);
    }
    assert forall|i: int| 0 <= i < c.curiosity_captures@.len() implies {
        &&& listed(texts(conf.curiosity_capture_ids@), #[trigger] c.curiosity_captures@[i].id@)
        &&& exists|j: int| 0 <= j < p.curiosity_captures@.len() && p.curiosity_captures@[j].id@ == c.curiosity_captures@[i].id@
        &&& c.curiosity_captures@[i].proposal_id@ == p.id@
        &&& c.curiosity_captures@[i].captured_at == at
    } by {
        assert(capture_record(c.curiosity_captures@[i], cs[i], p.id@, at));
        assert(listed(texts(conf.curiosity_capture_ids@), cs[i].id@));
        let j = choose|j: int| 0 <= j < p.curiosity_captures@.len() && p.curiosity_captures@[j] == cs[i];
        assert(p.curiosity_captures@[j].id@ == c.curiosity_captures@[i].id@);
    }
}

/// A confirmation that selects nothing materializes nothing: a proposal is
/// inert until the user picks from it.
pub proof fn law_empty_confirmation_materializes_nothing(c: ConfirmedTriage, p: TriageProposal, conf: TriageConfirmation, at: Timestamp)
    requires
        confirmed_as(c, p, conf, at),
        conf.decision_ids@.len() == 0,
        conf.curiosity_capture_ids@.len() == 0,
        !conf.accept_return_anchor,
    ensures
        c.decisions@.len() == 0,
        c.curiosity_captures@.len() == 0,
        c.return_anchor is None,
{
    lemma_chosen_decisions(p.decisions@, texts(conf.decision_ids@));
    lemma_chosen_captures(p.curiosity_captures@, texts(conf.curiosity_capture_ids@));
}

/// The evidence cited by brief items, item after item.
pub open spec fn item_evidence(items: Seq<BriefItem>) -> Seq<Seq<char>>
    decreases items.len(),
{
    if items.len() == 0 {
        seq![]
    } else {
        item_evidence(items.drop_last()) + texts(items.last().evidence_ids@)
    }
}

/// The evidence cited by proposed decisions, decision after decision.
pub open spec fn decision_evidence(ds: Seq<ProposedDecision>) -> Seq<Seq<char>>
    decreases ds.len(),
{
    if ds.len() == 0 {
        seq![]
    } else {
        decision_evidence(ds.drop_last()) + texts(ds.last().evidence_ids@)
    }
}

/// The evidence cited by proposed captures, capture after capture.
pub open spec fn capture_evidence(cs: Seq<ProposedCuriosityCapture>) -> Seq<Seq<char>>
    decreases cs.len(),
{
    if cs.len() == 0 {
        seq![]
    } else {
        capture_evidence(cs.drop_last()) + texts(cs.last().evidence_ids@)
    }
}

fn append_texts(out: &mut Vec<String>, v: &Vec<String>)
    ensures
        texts(final(out)@) == texts(old(out)@) + texts(v@),
{
    let ghost start = texts(out@);
    let mut k: usize = 0;
    while k < v.len()
        invariant
            k <= v@.len(),
            texts(out@) == start + texts(v@.take(k as int)),
        decreases v@.len() - k,
    {
        let ghost before = out@;
        out.push(v[k].clone());
        proof {
            assert(texts(v@.take(k + 1)) =~= texts(v@.take(k as int)).push(v@[k as int]@));
            assert(texts(out@) =~= texts(before).push(v@[k as int]@));
            assert(start + texts(v@.take(k + 1)) =~= (start + texts(v@.take(k as int))).push(v@[k as int]@));
        }
        k = k + 1;
    }
    proof { assert(v@.take(v@.len() as int) =~= v@); }
}

/// The evidence a brief proposal cites, each to be found in its batch.
pub fn brief_evidence(proposal: &BriefProposal) -> (r: Vec<String>)
    ensures
        texts(r@) == item_evidence(proposal.items@),
{
    let mut out: Vec<String> = Vec::new();
    let mut k: usize = 0;
    while k < proposal.items.len()
        invariant
            k <= proposal.items@.len(),
            texts(out@) == item_evidence(proposal.items@.take(k as int)),
        decreases proposal.items@.len() - k,
    {
        proof { assert(proposal.items@.take(k + 1).drop_last() =~= proposal.items@.take(k as int)); }
        append_texts(&mut out, &proposal.items[k].evidence_ids);
        k = k + 1;
    }
    proof { assert(proposal.items@.take(proposal.items@.len() as int) =~= proposal.items@); }
    out
}

/// The evidence a triage proposal cites: that of its decisions, then that of
/// its captures, each to be found in the brief's batch.
pub fn triage_evidence(proposal: &TriageProposal) -> (r: Vec<String>)
    ensures
        texts(r@) == decision_evidence(proposal.decisions@) + capture_evidence(proposal.curiosity_captures@),
{
    let mut out: Vec<String> = Vec::new();
    let mut k: usize = 0;
    while k < proposal.decisions.len()
        invariant
            k <= proposal.decisions@.len(),
            texts(out@) == decision_evidence(proposal.decisions@.take(k as int)),
        decreases proposal.decisions@.len() - k,
    {
        proof { assert(proposal.decisions@.take(k + 1).drop_last() =~= proposal.decisions@.take(k as int)); }
        append_texts(&mut out, &proposal.decisions[k].evidence_ids);
        k = k + 1;
    }
    proof { assert(proposal.decisions@.take(proposal.decisions@.len() as int) =~= proposal.decisions@); }
    let ghost head = texts(out@);
    let mut k: usize = 0;
    while k < proposal.curiosity_captures.len()
        invariant
            k <= proposal.curiosity_captures@.len(),
            head == decision_evidence(proposal.decisions@),
            texts(out@) == head + capture_evidence(proposal.curiosity_captures@.take(k as int)),
        decreases proposal.curiosity_captures@.len() - k,
    {
        proof { assert(proposal.curiosity_captures@.take(k + 1).drop_last() =~= proposal.curiosity_captures@.take(k as int)); }
        let ghost before = texts(out@);
        append_texts(&mut out, &proposal.curiosity_captures[k].evidence_ids);
        proof {
            let cs = proposal.curiosity_captures@.take(k + 1);
            assert(capture_evidence(cs) == capture_evidence(cs.drop_last()) + texts(cs.last().evidence_ids@));
            assert(head + capture_evidence(cs) =~= before + texts(proposal.curiosity_captures@[k as int].evidence_ids@));
        }
        k = k + 1;
    }
    proof { assert(proposal.curiosity_captures@.take(proposal.curiosity_captures@.len() as int) =~= proposal.curiosity_captures@); }
    out
}

/// Every cited item must exist: the first one that does not is reported,
/// by entity and identifier.
pub fn require_found(entity: &'static str, ids: &Vec<String>, found: &Vec<bool>) -> (r: Result<(), StoreRefusal>)
    requires
        found@.len() == ids@.len(),
    ensures
        r is Ok <==> forall|i: int| 0 <= i < found@.len() ==> #[trigger] found@[i],
        r matches Err(e) ==> exists|i: int| 0 <= i < ids@.len() && !found@[i]
            && (forall|j: int| 0 <= j < i ==> #[trigger] found@[j])
            && e == (StoreRefusal::NotFound { entity, id: ids@[i] }),
{
    let mut k: usize = 0;
    while k < ids.len()
        invariant
            k <= ids@.len(),
            found@.len() == ids@.len(),
            forall|j: int| 0 <= j < k ==> #[trigger] found@[j],
        decreases ids@.len() - k,
    {
        if !found[k] {
            return Err(StoreRefusal::NotFound { entity, id: ids[k].clone() });
        }
        k = k + 1;
    }
    Ok(())
}

/// Every proposed decision must decide on an item of the brief; the first
/// that does not is reported by its candidate.
pub fn check_candidates(brief: &BriefProposal, proposal: &TriageProposal) -> (r: Result<(), StoreRefusal>)
    ensures
        r is Ok <==> forall|i: int| 0 <= i < proposal.decisions@.len()
            ==> listed(item_ids(brief.items@), #[trigger] proposal.decisions@[i].candidate_id@),
        r matches Err(e) ==> exists|i: int| 0 <= i < proposal.decisions@.len()
            && !listed(item_ids(brief.items@), proposal.decisions@[i].candidate_id@)
            && (forall|j: int| 0 <= j < i ==> listed(item_ids(brief.items@), #[trigger] proposal.decisions@[j].candidate_id@))
            && (e matches StoreRefusal::NotFound { entity, id } && entity@ == "brief candidate"@
                && id@ == proposal.decisions@[i].candidate_id@),
{
    let ids = crate::attention::item_id_list(&brief.items);
    let mut k: usize = 0;
    while k < proposal.decisions.len()
        invariant
            k <= proposal.decisions@.len(),
            texts(ids@) == item_ids(brief.items@),
            forall|j: int| 0 <= j < k ==> listed(item_ids(brief.items@), #[trigger] proposal.decisions@[j].candidate_id@),
        decreases proposal.decisions@.len() - k,
    {
        if !find_text(&ids, proposal.decisions[k].candidate_id.as_str()) {
            return Err(StoreRefusal::NotFound {
                entity: "brief candidate",
                id: proposal.decisions[k].candidate_id.clone(),
            });
        }
        k = k + 1;
    }
    Ok(())
}

} // verus!
