//! The rules of the remote API: who may call it, what a request must hold,
//! and the error bodies it answers with.
use vstd::prelude::*;

use crate::protocol::{ApiErrorBody, ApiErrorDetail};
use crate::text::{chars_of, concat, is_blank, trim};

verus! {

/// The longest prompt a remote client may send, in characters.
pub const MAX_PROMPT_CHARS: usize = 4000;

/// The longest proposal identifier accepted, in bytes.
pub const MAX_PROPOSAL_ID_BYTES: usize = 256;

/// The shortest and longest device token, in bytes.
pub const MIN_TOKEN_BYTES: usize = 32;

/// The longest device token, in bytes.
pub const MAX_TOKEN_BYTES: usize = 256;

/// A refused remote request: the HTTP status and the body.
#[derive(Debug, Clone, PartialEq, Eq)]
pub struct ApiError {
    pub status: u16,
    pub body: ApiErrorBody,
}

/// Whether an error has the status, code, message and retry advice, and no
/// field details.
pub open spec fn plain_error(e: ApiError, status: u16, code: Seq<char>, message: Seq<char>, retryable: bool) -> bool {
    &&& e.status == status
    &&& e.body.code@ == code
    &&& e.body.message@ == message
    &&& e.body.retryable == retryable
    &&& e.body.details@.len() == 0
}

impl ApiError {
    fn plain(status: u16, code: &str, message: String, retryable: bool) -> (r: ApiError)
        ensures
            plain_error(r, status, code@, message@, retryable),
    {
        ApiError {
            status,
            body: ApiErrorBody { code: code.to_string(), message, retryable, details: Vec::new() },
        }
    }

    /// A caller without a valid device token.
    pub fn unauthorized() -> (r: ApiError)
        ensures
            plain_error(r, 401, "unauthorized"@, "A valid OpenBrief device token is required."@, false),
    {
        ApiError::plain(401, "unauthorized", "A valid OpenBrief device token is required.".to_string(), false)
    }

    /// A request with an invalid field, and why.
    pub fn validation(field: &'static str, reason: &'static str) -> (r: ApiError)
        ensures
            r.status == 422,
            r.body.code@ == "invalid_request"@,
            r.body.message@ == "The request is invalid."@,
            !r.body.retryable,
            r.body.details@.len() == 1,
            r.body.details@[0].field@ == field@,
            r.body.details@[0].reason@ == reason@,
    {
        let mut details: Vec<ApiErrorDetail> = Vec::new();
        details.push(ApiErrorDetail { field: field.to_string(), reason: reason.to_string() });
        ApiError {
            status: 422,
            body: ApiErrorBody {
                code: "invalid_request".to_string(),
                message: "The request is invalid.".to_string(),
                retryable: false,
                details,
            },
        }
    }

    /// A request that the current state does not allow.
    pub fn conflict(message: String) -> (r: ApiError)
        ensures
            plain_error(r, 409, "state_conflict"@, message@, false),
    {
        ApiError::plain(409, "state_conflict", message, false)
    }

    /// A request the agent host could not serve now.
    pub fn application(message: String) -> (r: ApiError)
        ensures
            plain_error(r, 503, "service_unavailable"@, message@, true),
    {
        ApiError::plain(503, "service_unavailable", message, true)
    }

    /// An event request without the event subprotocol.
    pub fn websocket_subprotocol() -> (r: ApiError)
        ensures
            plain_error(r, 400, "websocket_subprotocol_required"@,
                "WebSocket subprotocol openbrief.events.v1 is required."@, false),
    {
        ApiError::plain(400, "websocket_subprotocol_required",
            "WebSocket subprotocol openbrief.events.v1 is required.".to_string(), false)
    }

    /// A failure of the server itself.
    pub fn internal(message: String) -> (r: ApiError)
        ensures
            plain_error(r, 500, "internal_error"@, message@, false),
    {
        ApiError::plain(500, "internal_error", message, false)
    }
}

/// The prompt of a turn request: its text without surrounding whitespace,
/// required, and at most the character limit.
pub fn turn_text(text: &str) -> (r: Result<String, ApiError>)
    ensures
        is_blank(text@) ==> (r matches Err(e) && e.status == 422 && e.body.details@.len() == 1
            && e.body.details@[0].field@ == "text"@ && e.body.details@[0].reason@ == "required"@),
        !is_blank(text@) && trim(text@).len() > MAX_PROMPT_CHARS ==> (r matches Err(e) && e.status == 422
            && e.body.details@.len() == 1 && e.body.details@[0].field@ == "text"@ && e.body.details@[0].reason@ == "too_long"@),
        !is_blank(text@) && trim(text@).len() <= MAX_PROMPT_CHARS ==> (r matches Ok(t) && t@ == trim(text@)),
{
    let trimmed = crate::text::trim_string(text);
    let chars = chars_of(trimmed.as_str());
    if chars.len() == 0 {
        return Err(ApiError::validation("text", "required"));
    }
    if chars.len() > MAX_PROMPT_CHARS {
        return Err(ApiError::validation("text", "too_long"));
    }
    Ok(trimmed)
}

/// A proposal identifier must not be blank nor longer than the byte limit.
pub fn check_proposal_id(proposal_id: &str) -> (r: Result<(), ApiError>)
    ensures
        (is_blank(proposal_id@) || proposal_id.len() > MAX_PROPOSAL_ID_BYTES) ==> (r matches Err(e)
            && e.status == 422 && e.body.details@.len() == 1
            && e.body.details@[0].field@ == "proposal_id"@ && e.body.details@[0].reason@ == "invalid"@),
        !(is_blank(proposal_id@) || proposal_id.len() > MAX_PROPOSAL_ID_BYTES) ==> r is Ok,
{
    if crate::text::blank(proposal_id) || proposal_id.len() > MAX_PROPOSAL_ID_BYTES {
        return Err(ApiError::validation("proposal_id", "invalid"));
    }
    Ok(())
}

/// Whether an authorization header carries the device token as a bearer.
pub fn bearer_matches(authorization: Option<&str>, token: &str) -> (r: bool)
    ensures
        r == match authorization {
            Some(h) => h@ == "Bearer "@ + token@,
            None => false,
        },
{
    match authorization {
        Some(h) => {
            let expected = concat("Bearer ", token);
            crate::text::str_eq(h, expected.as_str())
        },
        None => false,
    }
}

/// Why the remote API could not be set up, by its own rules.
#[derive(Debug, Clone, PartialEq, Eq)]
pub enum RemoteError {
    /// Remote access is on without a token file.
    TokenPathRequired,
    /// The token file can be read by others than its owner.
    TokenPermissions(String),
    /// The token is shorter or longer than allowed.
    TokenLength,
}

/// Checks a token file: only its owner may read it (no group or other
/// permission bits), and the token, without surrounding whitespace, is 32
/// to 256 bytes long. The token, or the refusal.
pub fn accept_token(path: &str, mode: u32, contents: &str) -> (r: Result<String, RemoteError>)
    ensures
        mode & 0o077 != 0 ==> (r matches Err(RemoteError::TokenPermissions(p)) && p@ == path@),
        mode & 0o077 == 0 ==> {
            let t = trim(contents@);
            let n = vstd::utf8::encode_utf8(t).len() as usize;
            if MIN_TOKEN_BYTES <= n <= MAX_TOKEN_BYTES {
                r matches Ok(token) && token@ == t
            } else {
                r == Err::<String, RemoteError>(RemoteError::TokenLength)
            }
        },
{
    if mode & 0o077 != 0 {
        return Err(RemoteError::TokenPermissions(path.to_string()));
    }
    let token = crate::text::trim_string(contents);
    let bytes = token.as_str().len();
    if bytes < MIN_TOKEN_BYTES || bytes > MAX_TOKEN_BYTES {
        return Err(RemoteError::TokenLength);
    }
    Ok(token)
}

} // verus!
