use openbrief::cli::{
    clock_of, date_or_today, delete_answer, delete_gate, duration_label, parse_duration, recording_label, state_label, CommandError,
    DeleteGate,
};
use openbrief::protocol::RecordingStatus;
use openbrief::focus::FocusState;
use openbrief::instant::Span;

#[test]
fn duration_parser_accepts_minutes_and_hours() {
    assert_eq!(parse_duration("30m").unwrap(), Span::minutes(30));
    assert_eq!(parse_duration("2h").unwrap(), Span::hours(2));
    assert!(parse_duration("30").is_err());
    assert!(parse_duration("0m").is_err());
}

#[test]
fn duration_parser_refuses_other_units() {
    assert_eq!(parse_duration("5s"), Err(CommandError::InvalidDuration("5s".into())));
    assert_eq!(parse_duration("m"), Err(CommandError::InvalidDuration("m".into())));
    assert_eq!(parse_duration("10mm"), Err(CommandError::InvalidDuration("10mm".into())));
}

#[test]
fn delete_needs_both_flags_or_a_confirmation() {
    assert_eq!(delete_gate(true, true, false), DeleteGate::Proceed);
    assert_eq!(delete_gate(true, false, true), DeleteGate::Refuse(CommandError::NonInteractiveDeleteRequiresForce));
    assert_eq!(delete_gate(false, true, false), DeleteGate::Refuse(CommandError::NonInteractiveDeleteRequiresFlags));
    assert_eq!(delete_gate(false, false, true), DeleteGate::Ask);
    assert_eq!(delete_answer(" YES\n"), Ok(()));
    assert_eq!(delete_answer("y"), Ok(()));
    assert_eq!(delete_answer("no"), Err(CommandError::DeleteCancelled));
}

#[test]
fn excluded_state_is_labelled_private() {
    assert_eq!(state_label(&FocusState::Excluded), "private / excluded");
    assert_eq!(state_label(&FocusState::SourceUnavailable), "source unavailable");
}

#[test]
fn dates_and_clock_times_are_read_from_arguments() {
    assert_eq!(date_or_today(Some("2026-07-29"), (2000, 1, 1)), Ok((2026, 7, 29)));
    assert_eq!(date_or_today(None, (2000, 1, 1)), Ok((2000, 1, 1)));
    assert!(date_or_today(Some("2026-02-30"), (2000, 1, 1)).is_err());
    assert!(date_or_today(Some("yesterday"), (2000, 1, 1)).is_err());
    assert_eq!(clock_of("14:05"), Ok((14, 5)));
    assert!(clock_of("25:00").is_err());
    assert!(clock_of("14").is_err());
}

#[test]
fn status_and_duration_labels() {
    assert_eq!(recording_label(RecordingStatus::Paused), "paused");
    assert_eq!(recording_label(RecordingStatus::Disabled), "disabled");
    assert_eq!(duration_label(0), "0m 00s");
    assert_eq!(duration_label(65), "1m 05s");
    assert_eq!(duration_label(900), "15m 00s");
    assert_eq!(duration_label(7322), "122m 02s");
}

#[test]
fn written_dates_and_clock_times_are_read_as_written() {
    assert_eq!(date_or_today(Some("2024-02-29"), (2000, 1, 1)), Ok((2024, 2, 29)));
    assert_eq!(date_or_today(Some("0001-01-01"), (2000, 1, 1)), Ok((1, 1, 1)));
    assert_eq!(date_or_today(Some("9999-12-31"), (2000, 1, 1)), Ok((9999, 12, 31)));
    assert!(date_or_today(Some("2023-02-29"), (2000, 1, 1)).is_err());
    assert!(date_or_today(Some("2023-13-01"), (2000, 1, 1)).is_err());
    assert!(date_or_today(Some("2023-04-31"), (2000, 1, 1)).is_err());
    assert_eq!(clock_of("00:00"), Ok((0, 0)));
    assert_eq!(clock_of("23:59"), Ok((23, 59)));
    assert!(clock_of("23:60").is_err());
    assert!(clock_of("24:00").is_err());
}
