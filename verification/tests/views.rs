use openbrief::attention::{
    BriefDisposition, BriefItem, BriefProposal, ContentTrust, Observation, ObservationBatch, ProposedCuriosityCapture,
    ProposedDecision, ProposedReturnAnchor, ReturnAnchor, SourceCoverage, SourceStatus, TriageProposal,
};
use openbrief::instant::Timestamp;
use openbrief::triage::StoredTriageProposal;
use openbrief::views::{
    anchor_view, bounded_batch, brief_showable, brief_view, confirm_everything, empty_brief_view, frame_prompt, latest_unconfirmed_triage,
    triage_view,
};

fn at(hour: u8, minute: u8) -> Timestamp {
    Timestamp::from_civil(2026, 7, 30, hour, minute, 0, 9 * 3600).unwrap()
}

fn item(id: &str, disposition: BriefDisposition, evidence: &str) -> BriefItem {
    BriefItem {
        id: id.to_owned(),
        title: format!("title {id}"),
        reason: "reason".to_owned(),
        disposition,
        exploration_minutes: if disposition == BriefDisposition::Explore { Some(15) } else { None },
        evidence_ids: vec![evidence.to_owned()],
        unknowns: Vec::new(),
    }
}

fn batch() -> ObservationBatch {
    ObservationBatch {
        id: "batch-1".to_owned(),
        producer: "fixture".to_owned(),
        generated_at: at(10, 0),
        source_coverage: vec![
            SourceCoverage {
                source: "gmail".to_owned(),
                status: SourceStatus::Ready,
                last_synced_at: at(9, 59),
                raw_item_count: 1,
                observation_count: 1,
                omitted_item_count: 0,
            },
            SourceCoverage {
                source: "slack".to_owned(),
                status: SourceStatus::Partial,
                last_synced_at: at(8, 5),
                raw_item_count: 1,
                observation_count: 0,
                omitted_item_count: 1,
            },
        ],
        observations: vec![Observation {
            id: "obs-1".to_owned(),
            source: "gmail".to_owned(),
            kind: "message".to_owned(),
            occurred_at: at(9, 58),
            summary: "A direct question".to_owned(),
            facts: (0..12).map(|i| format!("fact {i}")).collect(),
            source_ref: "fixture-message-1".to_owned(),
            content_trust: ContentTrust::Untrusted,
        }],
    }
}

#[test]
fn brief_view_shows_evidence_time_and_coverage_freshness() {
    let proposal = BriefProposal {
        id: "brief-1".to_owned(),
        batch_id: "batch-1".to_owned(),
        created_at: at(10, 1),
        items: vec![
            item("one", BriefDisposition::Protect, "obs-1"),
            item("two", BriefDisposition::Explore, "obs-9"),
        ],
    };
    let view = brief_view(&batch(), &proposal);
    assert_eq!(view.protect.len(), 1);
    assert_eq!(view.protect[0].source, "gmail");
    assert_eq!(view.protect[0].observed_at, "09:58");
    assert_eq!(view.explore.len(), 1);
    assert_eq!(view.explore[0].minutes, 15);
    assert_eq!(view.explore[0].item.source, "Unknown");
    assert_eq!(view.explore[0].item.observed_at, "--:--");
    assert_eq!(view.coverage[0].status, "fresh");
    assert_eq!(view.coverage[1].status, "stale");
    assert_eq!(view.coverage[1].observed_at, "08:05");
    assert_eq!(view.generated_at, "10:01");
    assert_eq!(empty_brief_view().generated_at, "--:--");
}

#[test]
fn triage_view_summarizes_and_splits_by_disposition() {
    let brief = BriefProposal {
        id: "brief-1".to_owned(),
        batch_id: "batch-1".to_owned(),
        created_at: at(10, 1),
        items: vec![item("a", BriefDisposition::Protect, "obs-1"), item("b", BriefDisposition::Explore, "obs-1")],
    };
    let proposal = TriageProposal {
        id: "triage-1".to_owned(),
        brief_proposal_id: "brief-1".to_owned(),
        created_at: at(10, 2),
        decisions: vec![
            ProposedDecision { id: "d1".into(), candidate_id: "b".into(), decision: "look".into(), evidence_ids: vec!["obs-1".into()] },
            ProposedDecision { id: "d2".into(), candidate_id: "a".into(), decision: "keep".into(), evidence_ids: vec!["obs-1".into()] },
        ],
        curiosity_captures: vec![ProposedCuriosityCapture { id: "c1".into(), question: "why".into(), evidence_ids: vec!["obs-1".into()] }],
        return_anchor: Some(ProposedReturnAnchor {
            id: "anchor-1".into(),
            label: "label".into(),
            resume_point: "point".into(),
            next_action: "next".into(),
        }),
    };
    let view = triage_view(&brief, &proposal);
    assert_eq!(view.summary, "look。keep。why");
    assert_eq!(view.protect_ids, vec!["a".to_string()]);
    assert_eq!(view.explore_id, Some("b".to_string()));
    assert_eq!(view.return_anchor, "label");
    assert_eq!(view.return_command, "next");

    let all = confirm_everything(&proposal);
    assert_eq!(all.decision_ids, vec!["d1".to_string(), "d2".to_string()]);
    assert!(all.accept_return_anchor);

    let stored = vec![
        StoredTriageProposal { proposal: proposal.clone(), confirmed: true },
        StoredTriageProposal { proposal, confirmed: false },
    ];
    assert_eq!(latest_unconfirmed_triage(&stored), Some(1));
}

#[test]
fn anchor_view_keeps_label_and_next_action() {
    let view = anchor_view(ReturnAnchor {
        id: "anchor-1".into(),
        proposal_id: "triage-1".into(),
        label: "label".into(),
        resume_point: "point".into(),
        next_action: "next".into(),
        saved_at: at(10, 3),
    });
    assert_eq!(view.id, "triage-1");
    assert_eq!(view.return_command, "next");
    assert!(view.summary.is_empty());
}

#[test]
fn agent_snapshot_is_bounded() {
    let bounded = bounded_batch(&batch());
    assert_eq!(bounded.observations[0].facts.len(), 10);
    assert_eq!(bounded.source_coverage.len(), 2);
    assert!(frame_prompt(&"x".repeat(70_000), "hi").is_err());
    let prompt = frame_prompt("{}", "整理して").unwrap();
    assert!(prompt.starts_with("You are the reasoning sidecar for OpenBrief."));
    assert!(prompt.ends_with("OPENBRIEF_SNAPSHOT:\n{}\nUSER_TRIAGE:\n整理して"));
}

#[test]
fn a_brief_needs_valid_instants_and_timeboxes() {
    let mut proposal = BriefProposal {
        id: "brief-1".to_owned(),
        batch_id: "batch-1".to_owned(),
        created_at: at(10, 1),
        items: vec![item("one", BriefDisposition::Protect, "obs-1"), item("two", BriefDisposition::Explore, "obs-1")],
    };
    assert!(brief_showable(&batch(), &proposal));
    proposal.items[1].exploration_minutes = None;
    assert!(!brief_showable(&batch(), &proposal));
    proposal.items[1].exploration_minutes = Some(10);
    proposal.created_at = Timestamp { unix_nanos: 0, offset_seconds: 200_000 };
    assert!(!brief_showable(&batch(), &proposal));
}
