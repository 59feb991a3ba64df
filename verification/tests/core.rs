use openbrief::focus::{reduce_focus_transitions, CoreError, FocusReducer, FocusSegment, FocusState, FocusTransition};
use openbrief::instant::{local_day_bounds, Span, Timestamp};
use openbrief::slices::{effective_query_end, is_roomy, project_activity_slices, recent_context, recent_range, slicing_in_range, totals_fit, ContextRange};

const JST: i32 = 9 * 3600;

fn jst(day: u8, hour: u8, minute: u8, second: u8) -> Timestamp {
    Timestamp::from_civil(2026, 7, day, hour, minute, second, JST).unwrap()
}

#[test]
fn reducer_uses_transition_boundaries_without_overlap() {
    let transitions = vec![
        FocusTransition::observed(jst(29, 10, 0, 0), "ghostty".to_string()).unwrap(),
        FocusTransition::observed(jst(29, 10, 6, 0), "firefox".to_string()).unwrap(),
        FocusTransition::gap(jst(29, 10, 14, 0), FocusState::Idle).unwrap(),
    ];

    let segments = reduce_focus_transitions(&transitions, jst(29, 10, 20, 0)).unwrap();

    assert_eq!(segments.len(), 3);
    assert_eq!(segments[0].duration(), Some(Span::minutes(6)));
    assert_eq!(segments[1].duration(), Some(Span::minutes(8)));
    assert_eq!(segments[2].duration(), Some(Span::minutes(6)));
    assert_eq!(segments[1].app_id(), Some("firefox"));
}

#[test]
fn incremental_reducer_closes_the_previous_segment() {
    let mut reducer = FocusReducer::new(jst(29, 10, 0, 0));

    assert!(reducer
        .transition(jst(29, 10, 0, 0), FocusState::Observed, Some("ghostty".to_owned()))
        .unwrap()
        .is_none());
    let observed = reducer
        .transition(jst(29, 10, 6, 0), FocusState::Excluded, Some("signal".to_owned()))
        .unwrap()
        .unwrap();
    let excluded = reducer.finish(jst(29, 10, 10, 0)).unwrap().unwrap();

    assert_eq!(observed.ended_at, Some(jst(29, 10, 6, 0)));
    assert_eq!(observed.app_id(), Some("ghostty"));
    assert_eq!(excluded.state, FocusState::Excluded);
    assert_eq!(excluded.app_id(), None);
}

#[test]
fn non_observed_constructor_discards_content_identity() {
    let excluded = FocusTransition::new(jst(29, 10, 0, 0), FocusState::Excluded, Some("signal".to_owned())).unwrap();

    assert_eq!(excluded.app_id(), None);
    assert_eq!(
        FocusTransition::new(jst(29, 10, 0, 0), FocusState::Observed, Some("   ".to_owned())),
        Err(CoreError::MissingObservedAppId)
    );
}

#[test]
fn projection_splits_segments_at_local_quarter_hour() {
    let segment = FocusSegment::new(
        jst(29, 10, 14, 0),
        Some(jst(29, 10, 16, 0)),
        FocusState::Observed,
        Some("ghostty".to_owned()),
    )
    .unwrap();

    let slices = project_activity_slices(&[segment]).unwrap();

    assert_eq!(slices.len(), 2);
    assert_eq!(slices[0].start, jst(29, 10, 0, 0));
    assert_eq!(slices[0].durations[0].seconds, 60);
    assert_eq!(slices[1].start, jst(29, 10, 15, 0));
    assert_eq!(slices[1].durations[0].seconds, 60);
}

#[test]
fn projection_preserves_excluded_privacy() {
    let segment = FocusSegment::new(
        jst(29, 10, 0, 0),
        Some(jst(29, 10, 5, 0)),
        FocusState::Excluded,
        Some("signal".to_owned()),
    )
    .unwrap();

    let slices = project_activity_slices(&[segment]).unwrap();

    assert_eq!(slices[0].durations[0].state, FocusState::Excluded);
    assert_eq!(slices[0].durations[0].app_id(), None);
}

#[test]
fn recent_context_is_anchored_instead_of_using_latest_slice() {
    let segments = vec![FocusSegment::new(
        jst(29, 9, 55, 0),
        Some(jst(29, 10, 35, 0)),
        FocusState::Observed,
        Some("ghostty".to_owned()),
    )
    .unwrap()];
    let slices = project_activity_slices(&segments).unwrap();

    let brief = recent_context(&slices, jst(29, 10, 20, 0), Span::minutes(10)).unwrap();

    assert_eq!(brief.start, jst(29, 10, 10, 0));
    assert_eq!(brief.end, jst(29, 10, 20, 0));
    assert_eq!(brief.slices.len(), 2);
    assert_eq!(brief.slices[0].start, jst(29, 10, 0, 0));
    assert_eq!(brief.slices[1].start, jst(29, 10, 15, 0));

    let range = recent_range(jst(29, 10, 20, 0), Span::minutes(10)).unwrap();
    assert_eq!(range.start, jst(29, 10, 10, 0));
    assert_eq!(range.end, jst(29, 10, 20, 0));
}

#[test]
fn bucketing_keeps_non_utc_offset() {
    let segment = FocusSegment::new(
        jst(29, 10, 14, 30),
        Some(jst(29, 10, 15, 30)),
        FocusState::Observed,
        Some("ghostty".to_owned()),
    )
    .unwrap();

    let slices = project_activity_slices(&[segment]).unwrap();

    assert_eq!(slices[0].start.offset_seconds, 9 * 3600);
    assert_eq!(slices[0].durations[0].seconds, 30);
    assert_eq!(slices[1].durations[0].seconds, 30);
}

#[test]
fn an_open_segment_is_never_projected_beyond_observation_time() {
    let range = ContextRange::new(jst(30, 0, 0, 0), jst(31, 0, 0, 0)).unwrap();
    let now = jst(30, 10, 46, 0);

    assert_eq!(effective_query_end(range, now), Some(now));
}

#[test]
fn a_future_range_has_no_observed_end() {
    let range = ContextRange::new(
        jst(31, 0, 0, 0),
        Timestamp::from_civil(2026, 8, 1, 0, 0, 0, JST).unwrap(),
    )
    .unwrap();

    assert_eq!(effective_query_end(range, jst(30, 10, 46, 0)), None);
}

#[test]
fn reversed_range_is_refused() {
    assert_eq!(
        ContextRange::new(jst(30, 1, 0, 0), jst(30, 0, 0, 0)),
        Err(CoreError::InvalidRange { start: jst(30, 1, 0, 0), end: jst(30, 0, 0, 0) })
    );
}

#[test]
fn transitions_out_of_order_are_refused() {
    let transitions = vec![
        FocusTransition::observed(jst(29, 10, 6, 0), "firefox".to_string()).unwrap(),
        FocusTransition::observed(jst(29, 10, 0, 0), "ghostty".to_string()).unwrap(),
    ];
    assert!(reduce_focus_transitions(&transitions, jst(29, 10, 20, 0)).is_err());
}

#[test]
fn slicing_needs_instants_away_from_the_calendar_ends() {
    let at = |s: i128| Timestamp { unix_nanos: s * 1_000_000_000, offset_seconds: 9 * 3600 };
    assert!(is_roomy(at(1_785_374_400)));
    assert!(!is_roomy(Timestamp { unix_nanos: 0, offset_seconds: 100_000 }));
    assert!(!is_roomy(at(253_402_300_000)));
    let range = ContextRange::new(at(1_785_374_400), at(1_785_378_000)).unwrap();
    let segment = FocusSegment::new(at(1_785_374_400), Some(at(253_402_300_000)), FocusState::Idle, None).unwrap();
    assert!(slicing_in_range(&[], range));
    assert!(!slicing_in_range(&[segment], range));
}

#[test]
fn civil_dates_map_to_their_epoch_seconds() {
    let nanos = 1_000_000_000i128;
    assert_eq!(Timestamp::from_civil(1970, 1, 1, 0, 0, 0, 0).unwrap().unix_nanos, 0);
    assert_eq!(Timestamp::from_civil(2024, 2, 29, 12, 0, 0, 0).unwrap().unix_nanos, 1_709_208_000 * nanos);
    assert_eq!(Timestamp::from_civil(2000, 3, 1, 0, 0, 0, 0).unwrap().unix_nanos, 951_868_800 * nanos);
    assert_eq!(Timestamp::from_civil(1969, 12, 31, 23, 59, 59, 0).unwrap().unix_nanos, -nanos);
    assert_eq!(Timestamp::from_civil(2026, 7, 29, 10, 0, 0, 9 * 3600).unwrap().unix_nanos, 1_785_286_800 * nanos);
    assert_eq!(Timestamp::from_civil(9999, 12, 31, 23, 59, 59, 0).unwrap().unix_nanos, 253_402_300_799 * nanos);
    assert_eq!(Timestamp::from_civil(-9999, 1, 1, 0, 0, 0, 0).unwrap().unix_nanos, -377_705_116_800 * nanos);
    assert!(Timestamp::from_civil(2000, 2, 29, 0, 0, 0, 0).is_some());
    assert!(Timestamp::from_civil(1900, 2, 29, 0, 0, 0, 0).is_none());
    assert!(Timestamp::from_civil(2023, 2, 29, 0, 0, 0, 0).is_none());
    assert!(Timestamp::from_civil(2023, 4, 31, 0, 0, 0, 0).is_none());
    assert!(Timestamp::from_civil(2023, 13, 1, 0, 0, 0, 0).is_none());
    assert!(Timestamp::from_civil(10000, 1, 1, 0, 0, 0, 0).is_none());
    assert!(Timestamp::from_civil(2023, 1, 1, 24, 0, 0, 0).is_none());
}

#[test]
fn a_local_day_runs_from_midnight_to_midnight() {
    let nanos = 1_000_000_000i128;
    let (start, end) = local_day_bounds(2026, 7, 29, 9 * 3600).unwrap();
    assert_eq!(start.unix_nanos, (1_785_250_800) * nanos);
    assert_eq!(end.unix_nanos, (1_785_250_800 + 86_400) * nanos);
    assert_eq!(start.offset_seconds, 9 * 3600);
    assert!(local_day_bounds(9999, 12, 31, 0).is_none());
    assert!(local_day_bounds(2026, 2, 29, 0).is_none());
}

#[test]
fn slicing_totals_fit_for_a_day_of_segments() {
    let transitions = vec![
        FocusTransition::observed(jst(29, 10, 0, 0), "ghostty".to_string()).unwrap(),
        FocusTransition::observed(jst(29, 10, 6, 0), "firefox".to_string()).unwrap(),
        FocusTransition::gap(jst(29, 10, 14, 0), FocusState::Idle).unwrap(),
    ];
    let segments = reduce_focus_transitions(&transitions, jst(29, 10, 20, 0)).unwrap();
    let day = ContextRange::new(jst(29, 0, 0, 0), jst(30, 0, 0, 0)).unwrap();
    assert!(slicing_in_range(&segments, day));
    assert!(totals_fit(&segments, day));
    let empty = ContextRange { start: jst(29, 10, 0, 0), end: jst(29, 10, 0, 0) };
    assert!(totals_fit(&segments, empty));
}
