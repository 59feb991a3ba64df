use openbrief::attention::{BriefDisposition, BriefItem, BriefProposal, ContentTrust, Observation, ObservationBatch, SourceCoverage, SourceStatus};
use openbrief::focus::CoreError;
use openbrief::instant::Timestamp;

fn at(hour: u8, minute: u8) -> Timestamp {
    Timestamp::from_civil(2026, 7, 30, hour, minute, 0, 9 * 3600).unwrap()
}

fn item(id: &str) -> BriefItem {
    BriefItem {
        id: id.to_owned(),
        title: "Reply".to_owned(),
        reason: "A direct question needs attention".to_owned(),
        disposition: BriefDisposition::Protect,
        exploration_minutes: None,
        evidence_ids: vec!["obs-mail-1".to_owned()],
        unknowns: Vec::new(),
    }
}

fn batch() -> ObservationBatch {
    ObservationBatch {
        id: "batch-1".to_owned(),
        producer: "fixture".to_owned(),
        generated_at: at(10, 0),
        source_coverage: vec![SourceCoverage {
            source: "gmail".to_owned(),
            status: SourceStatus::Ready,
            last_synced_at: at(9, 59),
            raw_item_count: 1,
            observation_count: 1,
            omitted_item_count: 0,
        }],
        observations: vec![Observation {
            id: "obs-1".to_owned(),
            source: "gmail".to_owned(),
            kind: "message".to_owned(),
            occurred_at: at(9, 58),
            summary: "A direct question".to_owned(),
            facts: vec!["The user is the recipient".to_owned()],
            source_ref: "fixture-message-1".to_owned(),
            content_trust: ContentTrust::Untrusted,
        }],
    }
}

#[test]
fn brief_is_finite_and_evidence_backed() {
    let proposal = BriefProposal {
        id: "brief-1".to_owned(),
        batch_id: "batch-1".to_owned(),
        created_at: at(10, 0),
        items: vec![item("one"), item("two"), item("three"), item("four")],
    };

    assert_eq!(proposal.validate(), Err(CoreError::InvalidBriefItemCount { count: 4, max: 3 }));

    let mut proposal = proposal;
    proposal.items.truncate(1);
    proposal.items[0].evidence_ids.clear();
    assert_eq!(proposal.validate(), Err(CoreError::MissingEvidence { item_id: "one".to_owned() }));
}

#[test]
fn exploration_requires_a_positive_timebox() {
    let mut explore = item("explore");
    explore.disposition = BriefDisposition::Explore;
    let mut proposal = BriefProposal {
        id: "brief-1".to_owned(),
        batch_id: "batch-1".to_owned(),
        created_at: at(10, 0),
        items: vec![explore],
    };

    assert_eq!(
        proposal.validate(),
        Err(CoreError::InvalidExplorationMinutes { item_id: "explore".to_owned() })
    );

    proposal.items[0].exploration_minutes = Some(10);
    assert_eq!(proposal.validate(), Ok(()));
}

#[test]
fn batch_validation_reports_the_first_problem() {
    assert_eq!(batch().validate(), Ok(()));

    let mut blank_producer = batch();
    blank_producer.producer = "  ".to_owned();
    blank_producer.id = String::new();
    assert_eq!(blank_producer.validate(), Err(CoreError::EmptyField("observation batch id")));

    let mut repeated = batch();
    let again = repeated.observations[0].clone();
    repeated.observations.push(again);
    assert_eq!(
        repeated.validate(),
        Err(CoreError::DuplicateId { entity: "observation", id: "obs-1".to_owned() })
    );

    let mut blank_kind = batch();
    blank_kind.observations[0].kind = " ".to_owned();
    assert_eq!(blank_kind.validate(), Err(CoreError::EmptyField("observation kind")));
}

#[test]
fn repeated_evidence_is_refused() {
    let mut twice = item("one");
    twice.evidence_ids = vec!["obs-1".to_owned(), "obs-1".to_owned()];
    let proposal = BriefProposal {
        id: "brief-1".to_owned(),
        batch_id: "batch-1".to_owned(),
        created_at: at(10, 0),
        items: vec![twice],
    };
    assert_eq!(
        proposal.validate(),
        Err(CoreError::DuplicateId { entity: "evidence", id: "obs-1".to_owned() })
    );
}
