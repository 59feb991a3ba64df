use openbrief::remote::{accept_token, bearer_matches, check_proposal_id, turn_text, ApiError, RemoteError};

#[test]
fn turn_text_is_trimmed_and_bounded() {
    assert_eq!(turn_text("  整理して \n").unwrap(), "整理して");
    let required = turn_text("   ").unwrap_err();
    assert_eq!(required.status, 422);
    assert_eq!(required.body.details[0].reason, "required");
    let long = "あ".repeat(4001);
    assert_eq!(turn_text(&long).unwrap_err().body.details[0].reason, "too_long");
    assert!(turn_text(&"あ".repeat(4000)).is_ok());
}

#[test]
fn proposal_ids_and_tokens_are_checked() {
    assert!(check_proposal_id("triage-1").is_ok());
    assert!(check_proposal_id(" ").is_err());
    assert!(check_proposal_id(&"x".repeat(257)).is_err());
    assert!(bearer_matches(Some("Bearer secret"), "secret"));
    assert!(!bearer_matches(Some("bearer secret"), "secret"));
    assert!(!bearer_matches(None, "secret"));
}

#[test]
fn token_file_must_be_private_and_long_enough_in_rules() {
    let contents = "0123456789abcdef0123456789abcdef\n";
    assert_eq!(accept_token("/t", 0o600, contents).unwrap(), "0123456789abcdef0123456789abcdef");
    assert_eq!(accept_token("/t", 0o644, contents), Err(RemoteError::TokenPermissions("/t".into())));
    assert_eq!(accept_token("/t", 0o600, "short"), Err(RemoteError::TokenLength));
}

#[test]
fn error_bodies_follow_their_kind() {
    let e = ApiError::unauthorized();
    assert_eq!(e.status, 401);
    assert_eq!(e.body.message, "A valid OpenBrief device token is required.");
    assert!(ApiError::application("busy".into()).body.retryable);
    assert_eq!(ApiError::conflict("x".into()).body.code, "state_conflict");
}
