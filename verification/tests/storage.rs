use openbrief::focus::{CoreError, FocusState};
use openbrief::instant::Timestamp;
use openbrief::storage::{
    clip_segment, decode_end, decode_timestamp, encode_timestamp, focus_state_name, parse_focus_state, validate_range,
    StoredValueError,
};

fn at(hour: u8, minute: u8) -> Timestamp {
    Timestamp::from_civil(2026, 7, 30, hour, minute, 0, 9 * 3600).unwrap()
}

#[test]
fn state_names_round_trip() {
    for state in [
        FocusState::Observed,
        FocusState::Excluded,
        FocusState::Idle,
        FocusState::Locked,
        FocusState::Paused,
        FocusState::Disabled,
        FocusState::SourceUnavailable,
    ] {
        assert_eq!(parse_focus_state(focus_state_name(&state)), Ok(state));
    }
    assert_eq!(parse_focus_state("asleep"), Err(StoredValueError::InvalidFocusState("asleep".into())));
}

#[test]
fn instants_round_trip_through_storage() {
    let t = at(10, 0);
    let (nanos, offset) = encode_timestamp(t).unwrap();
    assert_eq!(offset, 9 * 3600);
    assert_eq!(decode_timestamp(nanos, offset), Ok(t));
    assert_eq!(decode_timestamp(nanos, 100_000), Err(StoredValueError::InvalidOffset(100_000)));
    assert_eq!(decode_end(Some(nanos), None), Err(StoredValueError::HalfStoredEnd));
    assert_eq!(decode_end(None, None), Ok(None));
}

#[test]
fn segments_are_clipped_to_the_range() {
    let seg = clip_segment(at(9, 0), None, FocusState::Observed, Some("ghostty".into()), at(10, 0), at(11, 0)).unwrap();
    assert_eq!(seg.started_at, at(10, 0));
    assert_eq!(seg.ended_at, Some(at(11, 0)));
    let inside = clip_segment(at(10, 10), Some(at(10, 20)), FocusState::Idle, None, at(10, 0), at(11, 0)).unwrap();
    assert_eq!(inside.started_at, at(10, 10));
    assert_eq!(inside.ended_at, Some(at(10, 20)));
    assert_eq!(
        clip_segment(at(10, 10), Some(at(10, 20)), FocusState::Observed, None, at(10, 0), at(11, 0)),
        Err(CoreError::MissingObservedAppId)
    );
    assert_eq!(
        validate_range(at(11, 0), at(10, 0)),
        Err(StoredValueError::InvalidRange { start: at(11, 0), end: at(10, 0) })
    );
}
