use openbrief::presence::{presence_from_properties, property_is_yes, uid_from_status, user_session, LoginSession, Presence};

#[test]
fn parses_loginctl_boolean_properties() {
    let properties = "IdleHint=no\nLockedHint=yes\n";
    assert!(property_is_yes(properties, "LockedHint"));
    assert!(!property_is_yes(properties, "IdleHint"));
}

#[test]
fn locked_wins_over_idle() {
    assert_eq!(presence_from_properties("IdleHint=yes\r\nLockedHint=yes\r\n"), Presence::Locked);
    assert_eq!(presence_from_properties("IdleHint=yes\nLockedHint=no"), Presence::Idle);
    assert_eq!(presence_from_properties("IdleHint=no\nLockedHint=no\n"), Presence::Active);
    assert_eq!(presence_from_properties("XIdleHint=yes"), Presence::Active);
}

#[test]
fn uid_comes_from_the_status_uid_line() {
    let status = "Name:\tcat\nUmask:\t0022\nUid:\t1000\t1000\t1000\t1000\nGid:\t100\n";
    assert_eq!(uid_from_status(status), Some(1000));
    assert_eq!(uid_from_status("Uid:\t+42\n"), Some(42));
    assert_eq!(uid_from_status("Uid:\t4294967296\n"), None);
    assert_eq!(uid_from_status("Uid:\n"), None);
    assert_eq!(uid_from_status("Name:\tcat\n"), None);
    assert_eq!(uid_from_status("Uid:\tx\nUid:\t7\n"), None);
}

#[test]
fn the_first_user_class_session_of_the_user_is_chosen() {
    let session = |id: &str, uid: u32, class: &str| LoginSession { session: id.to_owned(), uid, class: class.to_owned() };
    let sessions = vec![session("c1", 1000, "greeter"), session("2", 1001, "user"), session("3", 1000, "user"), session("4", 1000, "user")];
    assert_eq!(user_session(&sessions, 1000), Some(2));
    assert_eq!(user_session(&sessions, 1002), None);
}
