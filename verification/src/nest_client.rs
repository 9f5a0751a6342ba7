//! Rules of the Bird's HTTP client for the Nest: endpoint paths, the
//! authorization header, and how an error answer becomes a [`BirdError`].
//! Sending the requests is the caller's work.
use vstd::prelude::*;

use crate::api::Resolution;
use crate::client_error::{bird_code_of, user_message_of, BirdError};
use crate::ids::{uuid_text, uuid_to_string};
use crate::text::{chars_of, concat, slice_range, str_eq, string_from_chars, strip_end};

verus! {

broadcast use vstd::string::group_string_axioms;

/// `POST /api/flock/register`
pub const REGISTER_FLOCK_PATH: &'static str = "/api/flock/register";

/// `POST /api/flock/login`
pub const LOGIN_PATH: &'static str = "/api/flock/login";

/// `POST /api/birds` and `GET /api/birds`
pub const BIRDS_PATH: &'static str = "/api/birds";

/// `GET /api/clutches`
pub const CLUTCHES_PATH: &'static str = "/api/clutches";

/// Spec form of the slash predicate.
pub open spec fn slash_pred() -> spec_fn(char) -> bool {
    |c: char| c == '/'
}

/// A base URL without its trailing slashes.
pub fn trim_base_url(url: &str) -> (r: String)
    ensures
        r@ == strip_end(url@, slash_pred()),
{
    let v = chars_of(url);
    let mut n: usize = v.len();
    assert(v@.take(n as int) =~= v@);
    while n > 0 && v[n - 1] == '/'
        invariant
            n <= v@.len(),
            v@ == url@,
            strip_end(url@, slash_pred()) == strip_end(v@.take(n as int), slash_pred()),
        decreases n,
    {
        assert(v@.take(n as int).drop_last() =~= v@.take(n - 1));
        n = n - 1;
    }
    let kept = slice_range(v.as_slice(), 0, n);
    assert(kept@ =~= v@.take(n as int));
    string_from_chars(kept.as_slice())
}

/// The `Authorization` header value for a token.
pub fn bearer_header(token: &str) -> (h: String)
    ensures
        h@ == "Bearer "@ + token@,
{
    concat("Bearer ", token)
}

/// The token of a signed-in client, or `NotAuthenticated`.
pub fn require_token(token: &Option<String>) -> (r: Result<&String, BirdError>)
    ensures
        match token {
            Some(t) => r matches Ok(x) && x@ == t@,
            None => r matches Err(BirdError::NotAuthenticated),
        },
{
    match token {
        Some(t) => Ok(t),
        None => Err(BirdError::NotAuthenticated),
    }
}

/// `/api/clutches/{game_id}` followed by `tail`.
fn clutch_path(game_id: &str, tail: &str) -> (p: String)
    ensures
        p@ == "/api/clutches/"@ + game_id@ + tail@,
{
    let mut p = "/api/clutches/".to_string();
    p.append(game_id);
    p.append(tail);
    p
}

/// `GET /api/clutches/{game_id}/eggs`
pub fn eggs_path(game_id: &str) -> (p: String)
    ensures
        p@ == "/api/clutches/"@ + game_id@ + "/eggs"@,
{
    clutch_path(game_id, "/eggs")
}

/// `POST /api/clutches/{game_id}/compare`
pub fn compare_path(game_id: &str) -> (p: String)
    ensures
        p@ == "/api/clutches/"@ + game_id@ + "/compare"@,
{
    clutch_path(game_id, "/compare")
}

/// `POST /api/clutches/{game_id}/resolve`
pub fn resolve_path(game_id: &str) -> (p: String)
    ensures
        p@ == "/api/clutches/"@ + game_id@ + "/resolve"@,
{
    clutch_path(game_id, "/resolve")
}

/// `GET /api/clutches/{game_id}/hatch/{egg_id}`
pub fn hatch_path(game_id: &str, egg_id: u128) -> (p: String)
    ensures
        p@ == "/api/clutches/"@ + game_id@ + "/hatch/"@ + uuid_text(egg_id),
{
    let id = uuid_to_string(egg_id);
    let mut p = clutch_path(game_id, "/hatch/");
    p.append(id.as_str());
    p
}

/// The full URL of `POST {base}/api/clutches/{game_id}/lay`.
pub fn lay_url(base_url: &str, game_id: &str) -> (u: String)
    ensures
        u@ == base_url@ + "/api/clutches/"@ + game_id@ + "/lay"@,
{
    let mut u = base_url.to_string();
    u.append(clutch_path(game_id, "/lay").as_str());
    u
}

/// The string found at a JSON pointer (such as `/error/message`) in a JSON
/// text, or `None` when the text is not JSON or holds no string there.
pub uninterp spec fn json_text_at(text: Seq<char>, pointer: Seq<char>) -> Option<Seq<char>>;

/// `serde_json::from_str::<serde_json::Value>` followed by
/// `Value::pointer` and `Value::as_str`: the string at `pointer` in the JSON
/// document `text`, if it parses and holds one there.
#[verifier::external_body]
fn json_string_at(text: &str, pointer: &str) -> (r: Option<String>)
    ensures
        match json_text_at(text@, pointer@) {
            Some(s) => r matches Some(x) && x@ == s,
            None => r is None,
        },
{
    let value: serde_json::Value = serde_json::from_str(text).ok()?;
    value.pointer(pointer)?.as_str().map(String::from)
}

/// The message of a Nest error body: `error.message` of the standard
/// envelope, else a top-level `message`, else the body itself.
pub open spec fn nest_error_text(body: Seq<char>) -> Seq<char> {
    match json_text_at(body, "/error/message"@) {
        Some(m) => m,
        None => match json_text_at(body, "/message"@) {
            Some(m) => m,
            None => body,
        },
    }
}

/// The message of a Nest error body.
pub fn nest_error_message(body: &str) -> (m: String)
    ensures
        m@ == nest_error_text(body@),
{
    match json_string_at(body, "/error/message") {
        Some(m) => m,
        None => match json_string_at(body, "/message") {
            Some(m) => m,
            None => body.to_string(),
        },
    }
}

/// Whether an HTTP status is a success (2xx).
pub open spec fn is_success(status: u16) -> bool {
    200 <= status <= 299
}

/// What an answer with this status and body means: nothing to report for a
/// success, else the Nest's error.
pub fn check_answer(status: u16, body: &str) -> (r: Result<(), BirdError>)
    ensures
        is_success(status) ==> r is Ok,
        !is_success(status) ==> (r matches Err(BirdError::Nest { status: s, message }) && s
            == status && message@ == nest_error_text(body@)),
{
    if 200 <= status && status <= 299 {
        Ok(())
    } else {
        Err(BirdError::Nest { status, message: nest_error_message(body) })
    }
}

/// Serializable error returned to the frontend.
#[derive(Debug)]
pub struct ErrorPayload {
    pub code: String,
    pub message: String,
}

impl ErrorPayload {
    /// The payload of an error: its stable code and its user-facing message.
    pub fn of(err: &BirdError) -> (p: Self)
        ensures
            p.code@ == bird_code_of(*err),
            p.message@ == user_message_of(*err),
    {
        ErrorPayload { code: err.code().to_string(), message: err.user_message() }
    }
}

/// The resolution a frontend names: `nest` or `local`.
pub fn parse_resolution(text: &str) -> (r: Result<Resolution, BirdError>)
    ensures
        text@ == "nest"@ ==> r == Ok::<Resolution, BirdError>(Resolution::Nest),
        text@ == "local"@ ==> r == Ok::<Resolution, BirdError>(Resolution::Local),
        text@ != "nest"@ && text@ != "local"@ ==> (r matches Err(BirdError::Validation(m)) && m@
            == "resolution must be 'nest' or 'local'"@),
{
    proof {
        reveal_strlit("nest");
        reveal_strlit("local");
        assert("nest"@[0] != "local"@[0]);
    }
    if str_eq(text, "nest") {
        Ok(Resolution::Nest)
    } else if str_eq(text, "local") {
        Ok(Resolution::Local)
    } else {
        Err(BirdError::Validation("resolution must be 'nest' or 'local'".to_string()))
    }
}

} // verus!
