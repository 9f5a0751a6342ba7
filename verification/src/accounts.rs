//! Validation rules of the Flock and Bird endpoints.
use vstd::prelude::*;
use vstd::utf8::encode_utf8;

use crate::domain::Platform;
use crate::error::AppError;
use crate::text::{chars_of, ascii_lower, is_ascii_alnum, to_ascii_lower, trim, trim_str, str_eq};

verus! {

broadcast use vstd::string::group_string_axioms;

/// `POST /api/flock/register` body.
#[derive(Debug)]
pub struct RegisterRequest {
    pub username: String,
    pub password: String,
}

/// `POST /api/flock/login` body.
#[derive(Debug)]
pub struct LoginRequest {
    pub username: String,
    pub password: String,
}

/// `GET /health` answer.
#[derive(Debug)]
pub struct HealthResponse {
    pub status: &'static str,
    pub service: &'static str,
    pub version: &'static str,
    pub database: &'static str,
}

impl HealthResponse {
    /// The answer of a healthy server of the given version whose database
    /// answered.
    pub fn healthy(version: &'static str) -> (h: Self)
        ensures
            h.status@ == "ok"@,
            h.service@ == "nest"@,
            h.version@ == version@,
            h.database@ == "ok"@,
    {
        HealthResponse { status: "ok", service: "nest", version, database: "ok" }
    }
}

/// A character allowed in a username.
pub open spec fn username_char(c: char) -> bool {
    is_ascii_alnum(c) || c == '_' || c == '-'
}

/// A username is 1 to 32 bytes of ASCII letters, digits, `_` and `-`.
pub open spec fn username_ok(u: Seq<char>) -> bool {
    &&& u.len() > 0
    &&& encode_utf8(u).len() <= 32
    &&& forall|i: int| 0 <= i < u.len() ==> username_char(#[trigger] u[i])
}

/// A password is 8 to 128 bytes long.
pub open spec fn password_ok(p: Seq<char>) -> bool {
    8 <= encode_utf8(p).len() <= 128
}

/// A Bird name is not blank and at most 64 bytes long.
pub open spec fn bird_name_ok(n: Seq<char>) -> bool {
    trim(n).len() > 0 && encode_utf8(n).len() <= 64
}

/// The strict reading of a platform name: trimmed, case-insensitive, with
/// the aliases `steamos`, `mac` and `osx`; anything else is rejected.
pub open spec fn strict_platform(s: Seq<char>) -> Option<Platform> {
    let l = ascii_lower(trim(s));
    if l == "windows"@ {
        Some(Platform::Windows)
    } else if l == "linux"@ || l == "steamos"@ {
        Some(Platform::Linux)
    } else if l == "macos"@ || l == "mac"@ || l == "osx"@ {
        Some(Platform::MacOs)
    } else if l == "other"@ {
        Some(Platform::Other)
    } else {
        None
    }
}

/// Accepted usernames are exactly the texts of 1 to 32 ASCII letters (of
/// either case), digits, `_` and `-`.
pub proof fn lemma_username_rule(u: Seq<char>)
    ensures
        username_ok(u) <==> (1 <= u.len() <= 32 && forall|i: int|
            0 <= i < u.len() ==> ('a' <= #[trigger] u[i] <= 'z') || ('A' <= u[i] <= 'Z') || ('0'
                <= u[i] <= '9') || u[i] == '_' || u[i] == '-'),
{
    let allowed = forall|i: int|
        0 <= i < u.len() ==> ('a' <= #[trigger] u[i] <= 'z') || ('A' <= u[i] <= 'Z') || ('0'
            <= u[i] <= '9') || u[i] == '_' || u[i] == '-';
    if allowed || (forall|i: int| 0 <= i < u.len() ==> username_char(#[trigger] u[i])) {
        assert(vstd::utf8::is_ascii_chars(u)) by {
            assert forall|i: int| 0 <= i < u.len() implies '\0' <= #[trigger] u[i] <= '\u{7f}' by {
                if allowed {
                    assert(('a' <= u[i] <= 'z') || ('A' <= u[i] <= 'Z') || ('0' <= u[i] <= '9')
                        || u[i] == '_' || u[i] == '-');
                } else {
                    assert(username_char(u[i]));
                }
            }
        }
        vstd::utf8::is_ascii_chars_encode_utf8(u);
    }
}

fn username_char_exec(c: char) -> (r: bool)
    ensures
        r == username_char(c),
{
    ('a' <= c && c <= 'z') || ('A' <= c && c <= 'Z') || ('0' <= c && c <= '9') || c == '_' || c
        == '-'
}

/// Check a username for registration.
pub fn validate_username(username: &str) -> (r: Result<(), AppError>)
    ensures
        r is Ok <==> username_ok(username@),
        r is Ok <==> (1 <= username@.len() <= 32 && forall|i: int|
            0 <= i < username@.len() ==> ('a' <= #[trigger] username@[i] <= 'z') || ('A'
                <= username@[i] <= 'Z') || ('0' <= username@[i] <= '9') || username@[i] == '_'
                || username@[i] == '-'),
        r matches Err(e) ==> e matches AppError::Validation(m) && m@
            == "username must be 1-32 ASCII alphanumeric, underscore, or hyphen characters"@,
{
    let v = chars_of(username);
    let mut ok = !username.is_empty() && username.as_bytes().len() <= 32;
    let mut i: usize = 0;
    while i < v.len()
        invariant
            v@ == username@,
            i <= v@.len(),
            ok <==> (username@.len() > 0 && encode_utf8(username@).len() <= 32
                && forall|k: int| 0 <= k < i ==> username_char(#[trigger] v@[k])),
        decreases v@.len() - i,
    {
        if !username_char_exec(v[i]) {
            ok = false;
        }
        i = i + 1;
    }
    proof {
        lemma_username_rule(username@);
    }
    if ok {
        Ok(())
    } else {
        Err(
            AppError::Validation(
                "username must be 1-32 ASCII alphanumeric, underscore, or hyphen characters".to_string(),
            ),
        )
    }
}

/// Check a password for registration.
pub fn validate_password(password: &str) -> (r: Result<(), AppError>)
    ensures
        r is Ok <==> password_ok(password@),
        r matches Err(e) ==> e matches AppError::Validation(m) && m@
            == "password must be 8-128 characters"@,
{
    let n = password.as_bytes().len();
    if n < 8 || n > 128 {
        return Err(AppError::Validation("password must be 8-128 characters".to_string()));
    }
    Ok(())
}

/// Check a Bird's name; the name to store is the trimmed one.
pub fn validate_bird_name(name: &str) -> (r: Result<String, AppError>)
    ensures
        bird_name_ok(name@) ==> (r matches Ok(t) && t@ == trim(name@)),
        !bird_name_ok(name@) ==> (r matches Err(AppError::Validation(m)) && m@
            == "name must be 1-64 characters"@),
{
    let t = trim_str(name);
    if t.as_str().is_empty() || name.as_bytes().len() > 64 {
        return Err(AppError::Validation("name must be 1-64 characters".to_string()));
    }
    Ok(t)
}

/// Read a platform name strictly.
pub fn parse_platform(s: &str) -> (r: Result<Platform, AppError>)
    ensures
        match strict_platform(s@) {
            Some(p) => r == Ok::<Platform, AppError>(p),
            None => r matches Err(AppError::Validation(m)) && m@
                == "platform must be windows, linux, steamos, macos, or other"@,
        },
{
    let t = trim_str(s);
    let raw = to_ascii_lower(t.as_str());
    let l = raw.as_str();
    if str_eq(l, "windows") {
        Ok(Platform::Windows)
    } else if str_eq(l, "linux") || str_eq(l, "steamos") {
        Ok(Platform::Linux)
    } else if str_eq(l, "macos") || str_eq(l, "mac") || str_eq(l, "osx") {
        Ok(Platform::MacOs)
    } else if str_eq(l, "other") {
        Ok(Platform::Other)
    } else {
        Err(
            AppError::Validation(
                "platform must be windows, linux, steamos, macos, or other".to_string(),
            ),
        )
    }
}

/// A registration may go ahead only when the username is not taken.
pub fn require_free_username(taken: bool) -> (r: Result<(), AppError>)
    ensures
        r is Ok <==> !taken,
        r matches Err(e) ==> e matches AppError::Conflict(m) && m@ == "username already taken"@,
{
    if taken {
        Err(AppError::Conflict("username already taken".to_string()))
    } else {
        Ok(())
    }
}

} // verus!
