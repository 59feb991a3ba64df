use openbrief::collector::{active_focus, retention_duration, strictly_after, Collector, CollectorMessage, CollectorStep};
use openbrief::config::Config;
use openbrief::focus::FocusState;
use openbrief::instant::{Span, Timestamp};
use openbrief::niri::NiriFocusChange;
use openbrief::presence::Presence;
use openbrief::protocol::{ControlRequest, ControlResponse, RecordingStatus};

fn at(minute: u8) -> Timestamp {
    Timestamp::from_civil(2026, 7, 30, 10, minute, 0, 9 * 3600).unwrap()
}

fn change(app: &str) -> NiriFocusChange {
    NiriFocusChange { app_id: Some(app.into()), window_key: Some("opaque".into()) }
}

#[test]
fn daemon_excluded_app_never_keeps_its_identity() {
    let config = Config::default();
    let change = change("org.signal.Signal");
    let (state, app_id) = active_focus(&config, true, Some(&change));
    assert_eq!(state, FocusState::Excluded);
    assert_eq!(app_id, None);
}

#[test]
fn daemon_active_focus_restores_the_cached_application() {
    let config = Config::default();
    let change = change("com.mitchellh.ghostty");
    assert_eq!(
        active_focus(&config, true, Some(&change)),
        (FocusState::Observed, Some("com.mitchellh.ghostty".into()))
    );
    assert_eq!(active_focus(&config, false, Some(&change)), (FocusState::SourceUnavailable, None));
}

#[test]
fn daemon_retention_uses_the_configured_window() {
    let config = Config { retention_days: 3, ..Config::default() };
    assert_eq!(retention_duration(&config), Span::days(3));
}

#[test]
fn watch_excluded_app_never_keeps_its_identity() {
    let config = Config::default();
    let change = change("org.signal.Signal");
    let (state, app_id) = active_focus(&config, true, Some(&change));
    assert_eq!(state, FocusState::Excluded);
    assert_eq!(app_id, None);
}

#[test]
fn watch_active_focus_restores_the_cached_application() {
    let config = Config::default();
    let change = change("com.mitchellh.ghostty");
    assert_eq!(
        active_focus(&config, true, Some(&change)),
        (FocusState::Observed, Some("com.mitchellh.ghostty".into()))
    );
    assert_eq!(active_focus(&config, false, Some(&change)), (FocusState::SourceUnavailable, None));
}

#[test]
fn watch_retention_uses_the_configured_window() {
    let config = Config { retention_days: 3, ..Config::default() };
    assert_eq!(retention_duration(&config), Span::days(3));
}

#[test]
fn recorded_instants_strictly_increase() {
    let previous = at(5);
    assert_eq!(strictly_after(at(6), previous), at(6));
    let same = strictly_after(at(5), previous);
    assert_eq!(same.unix_nanos, previous.unix_nanos + 1);
    let earlier = strictly_after(at(1), previous);
    assert_eq!(earlier.unix_nanos, previous.unix_nanos + 1);
}

#[test]
fn focus_is_recorded_then_paused_collector_records_nothing() {
    let config = Config::default();
    let mut collector = Collector::new(at(0));
    collector.presence = Presence::Active;

    match collector.on_message(&config, at(1), CollectorMessage::Focus(change("firefox"))) {
        CollectorStep::Record(Ok(t)) => {
            assert_eq!(t.state, FocusState::Observed);
            assert_eq!(t.app_id(), Some("firefox"));
            assert_eq!(t.at, at(1));
        }
        other => panic!("unexpected step {other:?}"),
    }
    collector.recorded(at(1));

    match collector.on_message(&config, at(2), CollectorMessage::Control(ControlRequest::Pause { until: Some(at(30)) })) {
        CollectorStep::RecordThenReply(Ok(t)) => assert_eq!(t.state, FocusState::Paused),
        other => panic!("unexpected step {other:?}"),
    }
    assert_eq!(collector.recording, RecordingStatus::Paused);
    assert!(matches!(
        collector.on_message(&config, at(3), CollectorMessage::Focus(change("ghostty"))),
        CollectorStep::Continue
    ));
    assert!(matches!(
        collector.on_message(&config, at(4), CollectorMessage::Presence(Presence::Idle)),
        CollectorStep::Continue
    ));
}

#[test]
fn idle_user_focus_is_cached_and_restored_on_return() {
    let config = Config::default();
    let mut collector = Collector::new(at(0));
    collector.presence = Presence::Active;
    assert!(matches!(
        collector.on_message(&config, at(1), CollectorMessage::Presence(Presence::Idle)),
        CollectorStep::Record(Ok(_))
    ));
    assert!(matches!(
        collector.on_message(&config, at(2), CollectorMessage::Focus(change("firefox"))),
        CollectorStep::Continue
    ));
    match collector.on_message(&config, at(3), CollectorMessage::Presence(Presence::Active)) {
        CollectorStep::Record(Ok(t)) => assert_eq!(t.app_id(), Some("firefox")),
        other => panic!("unexpected step {other:?}"),
    }
}

#[test]
fn resume_of_recording_collector_is_acknowledged() {
    let config = Config::default();
    let mut collector = Collector::new(at(0));
    match collector.on_message(&config, at(1), CollectorMessage::Control(ControlRequest::Resume)) {
        CollectorStep::Reply(ControlResponse::Acknowledged) => {}
        other => panic!("unexpected step {other:?}"),
    }
    match collector.on_message(&config, at(1), CollectorMessage::Control(ControlRequest::LoadBrief)) {
        CollectorStep::Reply(ControlResponse::Error { code, .. }) => assert_eq!(code, "invalid_collector_request"),
        other => panic!("unexpected step {other:?}"),
    }
}

#[test]
fn expired_pause_resumes_recording_on_tick() {
    let config = Config::default();
    let mut collector = Collector::new(at(0));
    collector.on_message(&config, at(1), CollectorMessage::Control(ControlRequest::Pause { until: Some(at(10)) }));
    let plan = collector.tick(&config, at(5));
    assert!(matches!(plan.resume, CollectorStep::Continue));
    let plan = collector.tick(&config, at(10));
    assert!(matches!(plan.resume, CollectorStep::Record(Ok(_))));
    assert_eq!(collector.recording, RecordingStatus::Active);
    assert_eq!(collector.paused_until, None);
}

#[test]
fn deletion_records_an_unavailable_source() {
    let mut collector = Collector::new(at(0));
    let (transition, reply) = collector.deleted(at(7), 4);
    assert_eq!(transition.state, FocusState::SourceUnavailable);
    assert_eq!(transition.app_id(), None);
    assert_eq!(reply, ControlResponse::Deleted { segments: 4 });
    assert_eq!(collector.last_transition_at, at(7));
}

#[test]
fn loop_records_at_increasing_instants_when_the_clock_stands_still_or_goes_back() {
    let config = Config::default();
    let mut collector = Collector::new(at(10));
    let clock = [at(10), at(9), at(9), at(12), at(11)];
    let apps = ["org.mozilla.firefox", "com.mitchellh.ghostty", "org.signal.Signal", "org.mozilla.firefox", "com.mitchellh.ghostty"];
    let mut recorded: Vec<Timestamp> = Vec::new();
    collector.on_message(&config, at(10), CollectorMessage::Presence(Presence::Active));
    for (now, app) in clock.iter().zip(apps.iter()) {
        let instant = collector.instant(*now);
        match collector.on_message(&config, instant, CollectorMessage::Focus(change(app))) {
            CollectorStep::Record(Ok(transition)) => {
                assert_eq!(transition.at, instant);
                if transition.state == FocusState::Observed {
                    assert_ne!(transition.app_id(), Some("org.signal.Signal"));
                } else {
                    assert_eq!(transition.app_id(), None);
                }
                collector.recorded(instant);
                recorded.push(instant);
            }
            other => panic!("unexpected step {other:?}"),
        }
    }
    assert_eq!(recorded.len(), 5);
    for pair in recorded.windows(2) {
        assert!(pair[0].unix_nanos < pair[1].unix_nanos);
    }
    assert!(recorded[0].unix_nanos > at(10).unix_nanos);
    assert_eq!(recorded[1].unix_nanos, recorded[0].unix_nanos + 1);
    assert_eq!(recorded[3], at(12));
}
