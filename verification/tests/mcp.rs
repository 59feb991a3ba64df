use openbrief::attention::BriefDisposition;
use openbrief::instant::Timestamp;
use openbrief::mcp::{
    brief_proposal_from_input, triage_proposal_from_input, BriefDispositionInput, BriefItemInput, BriefProposalInput,
    ProposalStored, TriageProposalInput,
};

#[test]
fn brief_input_becomes_a_proposal() {
    let input = BriefProposalInput {
        id: "brief-1".into(),
        batch_id: "batch-1".into(),
        created_at: "2026-07-30T10:01:00+09:00".into(),
        items: vec![BriefItemInput {
            id: "one".into(),
            title: "Reply".into(),
            reason: "asked".into(),
            disposition: BriefDispositionInput::Explore,
            exploration_minutes: Some(10),
            evidence_ids: vec!["obs-1".into()],
            unknowns: Vec::new(),
        }],
    };
    let proposal = brief_proposal_from_input(input).unwrap();
    assert_eq!(proposal.created_at, Timestamp::from_civil(2026, 7, 30, 10, 1, 0, 9 * 3600).unwrap());
    assert_eq!(proposal.items[0].disposition, BriefDisposition::Explore);
    assert_eq!(proposal.items[0].exploration_minutes, Some(10));
    assert_eq!(ProposalStored::proposed("brief-1".into()).status, "proposed");
}

#[test]
fn triage_input_needs_an_rfc3339_instant() {
    let input = TriageProposalInput {
        id: "triage-1".into(),
        brief_proposal_id: "brief-1".into(),
        created_at: "yesterday".into(),
        decisions: Vec::new(),
        curiosity_captures: Vec::new(),
        return_anchor: None,
    };
    assert!(triage_proposal_from_input(input).is_err());
}
