use openbrief::journal::EventJournal;
use openbrief::protocol::DaemonEvent;

#[test]
fn cursors_are_monotonic_and_reads_are_exclusive_of_prior_cursor() {
    let mut journal = EventJournal::default();
    let cursor = journal.cursor();
    journal.push(DaemonEvent::TurnFinished);
    let (events, next) = journal.after(cursor);

    assert_eq!(events.len(), 1);
    assert_eq!(events[0].sequence, cursor);
    assert_eq!(next, cursor + 1);
    assert!(journal.after(next).0.is_empty());
}

#[test]
fn journal_keeps_only_the_latest_events() {
    let mut journal = EventJournal::default();
    for index in 0..805u64 {
        journal.push(DaemonEvent::MessageFinished { id: index.to_string() });
    }
    let (events, next) = journal.after(0);
    assert_eq!(events.len(), 800);
    assert_eq!(events[0].sequence, 5);
    assert_eq!(next, 805);
    assert_eq!(events[799].event, DaemonEvent::MessageFinished { id: "804".to_string() });
}
