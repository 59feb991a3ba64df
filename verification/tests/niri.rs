use openbrief::niri::{check_stream_reply, opaque_window_key, NiriEvent, NiriEventReducer, NiriFocusChange, NiriSourceError, NiriWindow};

fn window(id: u64, app_id: &str, focused: bool) -> NiriWindow {
    NiriWindow { id, app_id: Some(app_id.to_owned()), is_focused: focused }
}

#[test]
fn focus_change_uses_cached_app_and_focus_none_is_explicit() {
    let mut reducer = NiriEventReducer::default();
    assert!(reducer
        .apply(NiriEvent::WindowOpenedOrChanged { window: window(42, "org.example.Browser", false) })
        .is_none());

    let focused = reducer.apply(NiriEvent::WindowFocusChanged { id: Some(42) }).expect("focus event is public");
    assert_eq!(
        focused,
        NiriFocusChange {
            app_id: Some("org.example.Browser".to_owned()),
            window_key: Some("niri-window:42".to_owned()),
        }
    );

    let unfocused = reducer.apply(NiriEvent::WindowFocusChanged { id: None }).expect("focus-none event is public");
    assert_eq!(unfocused, NiriFocusChange { app_id: None, window_key: None });
}

#[test]
fn windows_changed_replaces_state_and_closed_focus_clears_it() {
    let mut reducer = NiriEventReducer::default();
    let snapshot = NiriEvent::WindowsChanged {
        windows: vec![window(41, "com.example.Editor", false), window(42, "org.example.Browser", true)],
    };

    assert_eq!(
        reducer.apply(snapshot),
        Some(NiriFocusChange {
            app_id: Some("org.example.Browser".to_owned()),
            window_key: Some("niri-window:42".to_owned()),
        })
    );
    assert_eq!(
        reducer.apply(NiriEvent::WindowClosed { id: 42 }),
        Some(NiriFocusChange { app_id: None, window_key: None })
    );
}

#[test]
fn focused_window_app_change_is_emitted_and_unknown_event_is_ignored() {
    let mut reducer = NiriEventReducer::default();
    reducer.apply(NiriEvent::WindowOpenedOrChanged { window: window(41, "com.example.Editor", true) });

    let changed = NiriEvent::WindowOpenedOrChanged { window: window(41, "com.example.Editor.Renamed", true) };
    assert_eq!(
        reducer.apply(changed),
        Some(NiriFocusChange {
            app_id: Some("com.example.Editor.Renamed".to_owned()),
            window_key: Some("niri-window:41".to_owned()),
        })
    );

    assert!(reducer.apply(NiriEvent::Other).is_none());
}

#[test]
fn window_keys_are_opaque_and_replies_are_checked() {
    assert_eq!(opaque_window_key(7), "niri-window:7");
    assert_eq!(check_stream_reply(Ok(None)), Ok(()));
    assert_eq!(
        check_stream_reply(Err("denied".into())),
        Err(NiriSourceError::Rejected("denied".into()))
    );
    assert_eq!(
        check_stream_reply(Ok(Some("Version".into()))),
        Err(NiriSourceError::UnexpectedResponse("Version".into()))
    );
}

const FOCUSED_WINDOW: &str = r#"{
    "WindowOpenedOrChanged": {
        "window": {
            "id": 41,
            "title": "secret title",
            "app_id": "com.example.Editor",
            "pid": 9876,
            "workspace_id": 2,
            "is_focused": true,
            "is_floating": false,
            "is_urgent": false,
            "layout": {
                "pos_in_scrolling_layout": [1, 1],
                "tile_size": [1200.0, 800.0],
                "window_size": [1198, 798],
                "tile_pos_in_workspace_view": [0.0, 0.0],
                "window_offset_in_tile": [1.0, 1.0]
            },
            "focus_timestamp": null
        }
    }
}"#;

/// The compositor's event read from its JSON, keeping only what the reducer
/// reads of a window.
fn parse(json: &str) -> NiriEvent {
    match serde_json::from_str::<niri_ipc::Event>(json).expect("valid compositor event") {
        niri_ipc::Event::WindowOpenedOrChanged { window } => NiriEvent::WindowOpenedOrChanged {
            window: NiriWindow { id: window.id, app_id: window.app_id, is_focused: window.is_focused },
        },
        niri_ipc::Event::WindowFocusChanged { id } => NiriEvent::WindowFocusChanged { id },
        niri_ipc::Event::WindowClosed { id } => NiriEvent::WindowClosed { id },
        _ => NiriEvent::Other,
    }
}

#[test]
fn native_window_json_keeps_only_app_and_opaque_key() {
    let mut reducer = NiriEventReducer::default();

    let change = reducer.apply(parse(FOCUSED_WINDOW)).expect("focused window produces a change");

    assert_eq!(
        change,
        NiriFocusChange { app_id: Some("com.example.Editor".to_owned()), window_key: Some("niri-window:41".to_owned()) }
    );
    assert!(!format!("{change:?}").contains("secret title"));
    assert!(!format!("{change:?}").contains("9876"));
}
