use openbrief::attention::{
    BriefDisposition, BriefItem, BriefProposal, ObservationBatch, ProposedCuriosityCapture, ProposedDecision,
    ProposedReturnAnchor, TriageConfirmation, TriageProposal,
};
use openbrief::records::{plan_confirmation, plan_ingest};
use openbrief::instant::Timestamp;
use openbrief::triage::{
    brief_evidence, check_candidates, check_selection, confirm_triage, ingest_outcome, require_found, require_unconfirmed,
    triage_evidence, IngestOutcome, StoreRefusal, StoredTriageProposal,
};

fn at(minute: u8) -> Timestamp {
    Timestamp::from_civil(2026, 7, 30, 10, minute, 0, 9 * 3600).unwrap()
}

fn brief() -> BriefProposal {
    BriefProposal {
        id: "brief-1".to_owned(),
        batch_id: "batch-1".to_owned(),
        created_at: at(1),
        items: vec![BriefItem {
            id: "candidate-1".to_owned(),
            title: "Reply today".to_owned(),
            reason: "A direct question needs attention".to_owned(),
            disposition: BriefDisposition::Protect,
            exploration_minutes: None,
            evidence_ids: vec!["obs-1".to_owned()],
            unknowns: Vec::new(),
        }],
    }
}

fn triage() -> TriageProposal {
    TriageProposal {
        id: "triage-1".to_owned(),
        brief_proposal_id: "brief-1".to_owned(),
        created_at: at(2),
        decisions: vec![ProposedDecision {
            id: "decision-1".to_owned(),
            candidate_id: "candidate-1".to_owned(),
            decision: "handle_today".to_owned(),
            evidence_ids: vec!["obs-1".to_owned()],
        }],
        curiosity_captures: vec![ProposedCuriosityCapture {
            id: "capture-1".to_owned(),
            question: "How should direct questions be ranked?".to_owned(),
            evidence_ids: vec!["obs-2".to_owned()],
        }],
        return_anchor: Some(ProposedReturnAnchor {
            id: "anchor-1".to_owned(),
            label: "Authentication test".to_owned(),
            resume_point: "Refresh failure case".to_owned(),
            next_action: "Add a 401 assertion".to_owned(),
        }),
    }
}

#[test]
fn confirmation_materializes_only_the_selection() {
    let result = confirm_triage(
        &triage(),
        &TriageConfirmation {
            decision_ids: vec!["decision-1".to_owned()],
            curiosity_capture_ids: Vec::new(),
            accept_return_anchor: true,
        },
        at(3),
    )
    .unwrap();
    assert_eq!(result.decisions.len(), 1);
    assert_eq!(result.decisions[0].proposal_id, "triage-1");
    assert_eq!(result.decisions[0].decided_at, at(3));
    assert!(result.curiosity_captures.is_empty());
    assert_eq!(result.return_anchor.as_ref().map(|anchor| anchor.id.as_str()), Some("anchor-1"));

    let nothing = confirm_triage(
        &triage(),
        &TriageConfirmation { decision_ids: Vec::new(), curiosity_capture_ids: Vec::new(), accept_return_anchor: false },
        at(3),
    )
    .unwrap();
    assert!(nothing.decisions.is_empty() && nothing.curiosity_captures.is_empty() && nothing.return_anchor.is_none());
}

#[test]
fn unknown_selections_are_refused_least_first() {
    let refused = confirm_triage(
        &triage(),
        &TriageConfirmation {
            decision_ids: vec!["zeta".to_owned(), "alpha".to_owned(), "decision-1".to_owned()],
            curiosity_capture_ids: Vec::new(),
            accept_return_anchor: false,
        },
        at(3),
    );
    assert_eq!(
        refused.unwrap_err(),
        StoreRefusal::UnknownSelection { entity: "proposed decision", id: "alpha".to_owned() }
    );
    let mut no_anchor = triage();
    no_anchor.return_anchor = None;
    let refused = confirm_triage(
        &no_anchor,
        &TriageConfirmation { decision_ids: Vec::new(), curiosity_capture_ids: Vec::new(), accept_return_anchor: true },
        at(3),
    );
    assert_eq!(
        refused.unwrap_err(),
        StoreRefusal::UnknownSelection { entity: "proposed return anchor", id: "triage-1".to_owned() }
    );
    assert_eq!(
        check_selection("x", &vec!["b".to_owned(), "a".to_owned()], &vec!["a".to_owned()]),
        Err(StoreRefusal::UnknownSelection { entity: "x", id: "b".to_owned() })
    );
}

#[test]
fn ingest_is_idempotent() {
    assert_eq!(ingest_outcome("batch-1", None, "{}"), Ok(IngestOutcome::Inserted));
    assert_eq!(ingest_outcome("batch-1", Some("{}"), "{}"), Ok(IngestOutcome::AlreadyPresent));
    assert_eq!(
        ingest_outcome("batch-1", Some("{\"a\":1}"), "{}"),
        Err(StoreRefusal::IdempotencyConflict { entity: "observation batch", id: "batch-1".to_owned() })
    );
}

#[test]
fn proposals_cite_existing_candidates_and_evidence() {
    assert_eq!(check_candidates(&brief(), &triage()), Ok(()));
    let mut stray = triage();
    stray.decisions[0].candidate_id = "candidate-9".to_owned();
    assert_eq!(
        check_candidates(&brief(), &stray),
        Err(StoreRefusal::NotFound { entity: "brief candidate", id: "candidate-9".to_owned() })
    );
    assert_eq!(brief_evidence(&brief()), vec!["obs-1".to_owned()]);
    let evidence = triage_evidence(&triage());
    assert_eq!(evidence, vec!["obs-1".to_owned(), "obs-2".to_owned()]);
    assert_eq!(
        require_found("observation evidence", &evidence, &vec![true, false]),
        Err(StoreRefusal::NotFound { entity: "observation evidence", id: "obs-2".to_owned() })
    );
    assert_eq!(require_unconfirmed("triage-1", true), Err(StoreRefusal::AlreadyConfirmed("triage-1".to_owned())));
}

fn select_all() -> TriageConfirmation {
    TriageConfirmation {
        decision_ids: vec!["decision-1".to_owned()],
        curiosity_capture_ids: vec!["capture-1".to_owned()],
        accept_return_anchor: true,
    }
}

#[test]
fn a_confirmed_proposal_refuses_every_later_confirmation() {
    let first = plan_confirmation("triage-1", Some(StoredTriageProposal { proposal: triage(), confirmed: false }), &select_all(), at(5))
        .unwrap();
    assert_eq!(first.decisions.len(), 1);
    assert_eq!(first.curiosity_captures.len(), 1);
    assert!(first.return_anchor.is_some());
    let none = TriageConfirmation { decision_ids: Vec::new(), curiosity_capture_ids: Vec::new(), accept_return_anchor: false };
    for confirmation in [select_all(), none] {
        assert_eq!(
            plan_confirmation("triage-1", Some(StoredTriageProposal { proposal: triage(), confirmed: true }), &confirmation, at(9)),
            Err(StoreRefusal::AlreadyConfirmed("triage-1".to_owned()))
        );
    }
}

#[test]
fn a_confirmation_of_a_missing_proposal_or_unknown_selection_is_refused() {
    assert_eq!(
        plan_confirmation("triage-9", None, &select_all(), at(5)),
        Err(StoreRefusal::NotFound { entity: "triage proposal", id: "triage-9".to_owned() })
    );
    let unknown = TriageConfirmation { decision_ids: vec!["decision-9".to_owned()], ..select_all() };
    assert_eq!(
        plan_confirmation("triage-1", Some(StoredTriageProposal { proposal: triage(), confirmed: false }), &unknown, at(5)),
        Err(StoreRefusal::UnknownSelection { entity: "proposed decision", id: "decision-9".to_owned() })
    );
}

#[test]
fn an_ingest_checks_the_batch_then_stores_it_once() {
    let batch = ObservationBatch {
        id: "batch-1".to_owned(),
        producer: "fixture".to_owned(),
        generated_at: at(0),
        source_coverage: Vec::new(),
        observations: Vec::new(),
    };
    assert_eq!(plan_ingest(&batch, None, "{\"a\":1}"), Ok(IngestOutcome::Inserted));
    assert_eq!(plan_ingest(&batch, Some("{\"a\":1}"), "{\"a\":1}"), Ok(IngestOutcome::AlreadyPresent));
    assert_eq!(
        plan_ingest(&batch, Some("{\"a\":2}"), "{\"a\":1}"),
        Err(StoreRefusal::IdempotencyConflict { entity: "observation batch", id: "batch-1".to_owned() })
    );
    let invalid = ObservationBatch { id: "  ".to_owned(), ..batch };
    assert!(matches!(plan_ingest(&invalid, None, "{}"), Err(StoreRefusal::Invalid(_))));
}
