//! The attention records of the store as its operations read and write
//! them: stored observation batches, triage proposals with their
//! confirmation, and what confirmations materialized.
//!
//! Each operation reads what it needs, asks a plan of this module what the
//! records owe (a refusal, or what to write), and writes exactly that in one
//! transaction; a refusal writes nothing. The laws below hold of the records
//! across calls.
use vstd::prelude::*;

use crate::attention::{
    batch_issue, capture_ids, decision_ids, issue_of, CuriosityCapture, ObservationBatch, ReturnAnchor,
    TriageConfirmation, TriageProposal, UserDecision,
};
use crate::instant::Timestamp;
use crate::triage::{
    all_known, confirm_triage, confirmed_as, ingest_outcome, unknown_selection, ConfirmedTriage, IngestOutcome,
    StoreRefusal, StoredTriageProposal,
};

verus! {

/// The attention records: the payload stored under each batch identifier,
/// each triage proposal with whether it was confirmed, and the decisions,
/// captures and anchors confirmations materialized, in the order written.
pub struct Records {
    pub batches: Map<Seq<char>, Seq<char>>,
    pub triage: Map<Seq<char>, (TriageProposal, bool)>,
    pub decisions: Seq<UserDecision>,
    pub captures: Seq<CuriosityCapture>,
    pub anchors: Seq<ReturnAnchor>,
}

/// The entry stored under an identifier, if any.
pub open spec fn entry<V>(m: Map<Seq<char>, V>, id: Seq<char>) -> Option<V> {
    if m.contains_key(id) { Some(m[id]) } else { None }
}

/// What confirming a proposal owes, given its stored entry: a missing
/// proposal is not found, a confirmed one is refused as already confirmed,
/// a selection the proposal does not hold is refused with the least unknown
/// identifier, and otherwise exactly the selected elements are materialized.
pub open spec fn confirm_owed(
    stored: Option<(TriageProposal, bool)>,
    pid: Seq<char>,
    conf: TriageConfirmation,
    at: Timestamp,
    r: Result<ConfirmedTriage, StoreRefusal>,
) -> bool {
    match stored {
        None => r matches Err(StoreRefusal::NotFound { entity, id }) && entity@ == "triage proposal"@ && id@ == pid,
        Some((p, confirmed)) => if confirmed {
            r matches Err(StoreRefusal::AlreadyConfirmed(id)) && id@ == pid
        } else {
            let dav = decision_ids(p.decisions@);
            let cav = capture_ids(p.curiosity_captures@);
            if !all_known(conf.decision_ids@, dav) {
                r matches Err(e) && unknown_selection(e, "proposed decision"@, conf.decision_ids@, dav)
            } else if !all_known(conf.curiosity_capture_ids@, cav) {
                r matches Err(e) && unknown_selection(e, "proposed curiosity capture"@, conf.curiosity_capture_ids@, cav)
            } else if conf.accept_return_anchor && p.return_anchor is None {
                r matches Err(StoreRefusal::UnknownSelection { entity, id }) && entity@ == "proposed return anchor"@
                    && id@ == p.id@
            } else {
                r matches Ok(c) && confirmed_as(c, p, conf, at)
            }
        },
    }
}

/// The records after a confirmation of `pid` answered `r`: unchanged on a
/// refusal; otherwise the proposal is marked confirmed and what was
/// materialized is appended.
pub open spec fn after_confirm(rec: Records, pid: Seq<char>, r: Result<ConfirmedTriage, StoreRefusal>) -> Records {
    match r {
        Err(_) => rec,
        Ok(c) => Records {
            triage: rec.triage.insert(pid, (rec.triage[pid].0, true)),
            decisions: rec.decisions + c.decisions@,
            captures: rec.captures + c.curiosity_captures@,
            anchors: rec.anchors + match c.return_anchor {
                Some(a) => seq![a],
                None => Seq::empty(),
            },
            ..rec
        },
    }
}

/// The stored entry a read of a triage proposal gave.
pub open spec fn stored_entry(stored: Option<StoredTriageProposal>) -> Option<(TriageProposal, bool)> {
    match stored {
        Some(s) => Some((s.proposal, s.confirmed)),
        None => None,
    }
}

/// What confirming the proposal `proposal_id` owes, given what is stored
/// under that identifier: the refusal, or what to write.
pub fn plan_confirmation(
    proposal_id: &str,
    stored: Option<StoredTriageProposal>,
    confirmation: &TriageConfirmation,
    confirmed_at: Timestamp,
) -> (r: Result<ConfirmedTriage, StoreRefusal>)
    ensures
        confirm_owed(stored_entry(stored), proposal_id@, *confirmation, confirmed_at, r),
{
    match stored {
        None => Err(StoreRefusal::NotFound { entity: "triage proposal", id: proposal_id.to_string() }),
        Some(s) => {
            if s.confirmed {
                return Err(StoreRefusal::AlreadyConfirmed(proposal_id.to_string()));
            }
            confirm_triage(&s.proposal, confirmation, confirmed_at)
        },
    }
}

/// What ingesting a batch owes, given the payload stored under its
/// identifier: an invalid batch is refused with its first issue; a batch not
/// stored yet is inserted; the same payload again is already present; a
/// different one is a conflict.
pub open spec fn ingest_owed(
    existing: Option<Seq<char>>,
    batch: ObservationBatch,
    payload: Seq<char>,
    r: Result<IngestOutcome, StoreRefusal>,
) -> bool {
    match batch_issue(batch) {
        Some(issue) => r matches Err(StoreRefusal::Invalid(e)) && issue_of(e) == issue,
        None => match existing {
            None => r == Ok::<IngestOutcome, StoreRefusal>(IngestOutcome::Inserted),
            Some(e) => if e == payload {
                r == Ok::<IngestOutcome, StoreRefusal>(IngestOutcome::AlreadyPresent)
            } else {
                r matches Err(StoreRefusal::IdempotencyConflict { entity, id }) && entity@ == "observation batch"@
                    && id@ == batch.id@
            },
        },
    }
}

/// The records after an ingest of `payload` under `id` answered `r`: the
/// payload is stored only when the batch was inserted.
pub open spec fn after_ingest(rec: Records, id: Seq<char>, payload: Seq<char>, r: Result<IngestOutcome, StoreRefusal>) -> Records {
    match r {
        Ok(IngestOutcome::Inserted) => Records { batches: rec.batches.insert(id, payload), ..rec },
        _ => rec,
    }
}

/// The text of an optional stored payload.
pub open spec fn opt_text(t: Option<&str>) -> Option<Seq<char>> {
    match t {
        Some(s) => Some(s@),
        None => None,
    }
}

/// What ingesting `batch`, serialized as `payload`, owes given what is stored
/// under its identifier: the batch is checked first, then stored
/// idempotently.
pub fn plan_ingest(batch: &ObservationBatch, existing: Option<&str>, payload: &str) -> (r: Result<IngestOutcome, StoreRefusal>)
    ensures
        ingest_owed(opt_text(existing), *batch, payload@, r),
{
    match batch.validate() {
        Err(e) => Err(StoreRefusal::Invalid(e)),
        Ok(()) => ingest_outcome(batch.id.as_str(), existing, payload),
    }
}

/// Once a proposal is confirmed, every later confirmation of it, whatever it
/// selects and whenever it comes, is refused as already confirmed, and the
/// records stay as the first confirmation left them.
pub proof fn law_confirmed_proposal_refuses_later_confirmations(
    rec: Records,
    pid: Seq<char>,
    first: TriageConfirmation,
    first_at: Timestamp,
    r1: Result<ConfirmedTriage, StoreRefusal>,
    later: TriageConfirmation,
    later_at: Timestamp,
    r2: Result<ConfirmedTriage, StoreRefusal>,
)
    requires
        confirm_owed(entry(rec.triage, pid), pid, first, first_at, r1),
        r1 is Ok,
        confirm_owed(entry(after_confirm(rec, pid, r1).triage, pid), pid, later, later_at, r2),
    ensures
        r2 matches Err(StoreRefusal::AlreadyConfirmed(id)) && id@ == pid,
        after_confirm(after_confirm(rec, pid, r1), pid, r2) == after_confirm(rec, pid, r1),
{
}

/// A refused confirmation (a missing proposal, one confirmed before, or a
/// selection the proposal does not hold) leaves every record as it was: the
/// proposal stays as stored and no decision, capture or anchor is added.
/// A confirmation is refused exactly when the proposal is missing or
/// confirmed, or the selection names what the proposal does not hold.
pub proof fn law_refused_confirmation_changes_nothing(
    rec: Records,
    pid: Seq<char>,
    conf: TriageConfirmation,
    at: Timestamp,
    r: Result<ConfirmedTriage, StoreRefusal>,
)
    requires
        confirm_owed(entry(rec.triage, pid), pid, conf, at, r),
    ensures
        r is Err ==> after_confirm(rec, pid, r) == rec,
        r is Err <==> match entry(rec.triage, pid) {
            None => true,
            Some((p, confirmed)) => confirmed
                || !all_known(conf.decision_ids@, decision_ids(p.decisions@))
                || !all_known(conf.curiosity_capture_ids@, capture_ids(p.curiosity_captures@))
                || (conf.accept_return_anchor && p.return_anchor is None),
        },
{
}

/// A refused ingest (an invalid batch, or a different payload under an
/// identifier already stored) leaves the stored batches as they were.
pub proof fn law_refused_ingest_changes_nothing(
    rec: Records,
    batch: ObservationBatch,
    payload: Seq<char>,
    r: Result<IngestOutcome, StoreRefusal>,
)
    requires
        ingest_owed(entry(rec.batches, batch.id@), batch, payload, r),
    ensures
        r is Err ==> after_ingest(rec, batch.id@, payload, r) == rec,
        r is Err <==> (batch_issue(batch) is Some
            || (rec.batches.contains_key(batch.id@) && rec.batches[batch.id@] != payload)),
{
}

/// Ingesting the same batch again is idempotent: once inserted, the same
/// payload is already present and the records do not change.
pub proof fn law_ingest_is_idempotent(
    rec: Records,
    batch: ObservationBatch,
    payload: Seq<char>,
    r1: Result<IngestOutcome, StoreRefusal>,
    r2: Result<IngestOutcome, StoreRefusal>,
)
    requires
        ingest_owed(entry(rec.batches, batch.id@), batch, payload, r1),
        r1 is Ok,
        ingest_owed(entry(after_ingest(rec, batch.id@, payload, r1).batches, batch.id@), batch, payload, r2),
    ensures
        r2 == Ok::<IngestOutcome, StoreRefusal>(IngestOutcome::AlreadyPresent),
        after_ingest(after_ingest(rec, batch.id@, payload, r1), batch.id@, payload, r2)
            == after_ingest(rec, batch.id@, payload, r1),
{
}

} // verus!
