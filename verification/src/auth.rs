//! Authentication primitives: Argon2 password hashing and HMAC-SHA256 signed
//! tokens in a compact JWT-like layout
//! (`base64url(header).base64url(payload).base64url(signature)`).
use vstd::prelude::*;
use vstd::utf8::encode_utf8;

use crate::clock::unix_now;
use crate::error::AppError;
use crate::ids::{parse_uuid, uuid_parse, uuid_text, uuid_to_string, lemma_uuid_text_has_no_dot};
use crate::text::{
    chars_of, concat, lemma_split_three, nat_digits, split_chars, split_on, starts_with,
    string_from_chars, trim, trim_str, u64_text, slice_range,
};

verus! {

broadcast use vstd::string::group_string_axioms;

// ---------------------------------------------------------------------------
// Outside primitives: base64url and HMAC-SHA256
// ---------------------------------------------------------------------------

/// Characters of the URL-safe base64 alphabet.
pub open spec fn is_b64url_char(c: char) -> bool {
    ('A' <= c <= 'Z') || ('a' <= c <= 'z') || ('0' <= c <= '9') || c == '-' || c == '_'
}

/// The unpadded URL-safe base64 text of bytes.
pub uninterp spec fn b64url_text(data: Seq<u8>) -> Seq<char>;

/// What unpadded URL-safe base64 decoding reads from a text (`None` when the
/// text is rejected).
pub uninterp spec fn b64url_read(s: Seq<char>) -> Option<Seq<u8>>;

/// `base64::engine::general_purpose::URL_SAFE_NO_PAD.encode`: the text uses
/// only the URL-safe alphabet, and the same engine decodes it back to `data`.
#[verifier::external_body]
fn b64_encode(data: &[u8]) -> (s: String)
    ensures
        s@ == b64url_text(data@),
        forall|k: int| 0 <= k < s@.len() ==> is_b64url_char(#[trigger] s@[k]),
        b64url_read(s@) == Some(data@),
{
    <base64::engine::GeneralPurpose as base64::Engine>::encode(
        &base64::engine::general_purpose::URL_SAFE_NO_PAD,
        data,
    )
}

/// `base64::engine::general_purpose::URL_SAFE_NO_PAD.decode`.
#[verifier::external_body]
fn b64_decode(s: &str) -> (r: Option<Vec<u8>>)
    ensures
        r is Some <==> b64url_read(s@) is Some,
        r matches Some(v) ==> b64url_read(s@) == Some(v@),
{
    <base64::engine::GeneralPurpose as base64::Engine>::decode(
        &base64::engine::general_purpose::URL_SAFE_NO_PAD,
        s,
    ).ok()
}

/// The HMAC-SHA256 tag of `data` under `key`.
pub uninterp spec fn hmac_sha256_tag(key: Seq<u8>, data: Seq<u8>) -> Seq<u8>;

/// `hmac::Hmac::<sha2::Sha256>`: keyed with `key`, fed `data`, finalized.
/// HMAC takes keys of any length, so keying never fails.
#[verifier::external_body]
fn hmac_sha256(key: &[u8], data: &[u8]) -> (r: Result<Vec<u8>, String>)
    ensures
        r is Ok,
        r matches Ok(t) ==> t@ == hmac_sha256_tag(key@, data@) && t@.len() == 32,
{
    match <hmac::Hmac<sha2::Sha256> as hmac::Mac>::new_from_slice(key) {
        Ok(mut mac) => {
            hmac::Mac::update(&mut mac, data);
            Ok(hmac::Mac::finalize(mac).into_bytes().to_vec())
        },
        Err(e) => Err(e.to_string()),
    }
}

/// `hmac::Mac::verify_slice` for HMAC-SHA256: accepts exactly the tag that
/// the key gives for `data`.
#[verifier::external_body]
fn hmac_sha256_verify(key: &[u8], data: &[u8], tag: &[u8]) -> (r: Result<bool, String>)
    ensures
        r is Ok,
        r matches Ok(b) ==> b == (tag@ == hmac_sha256_tag(key@, data@)),
{
    match <hmac::Hmac<sha2::Sha256> as hmac::Mac>::new_from_slice(key) {
        Ok(mut mac) => {
            hmac::Mac::update(&mut mac, data);
            Ok(hmac::Mac::verify_slice(mac, tag).is_ok())
        },
        Err(e) => Err(e.to_string()),
    }
}

// ---------------------------------------------------------------------------
// Tokens
// ---------------------------------------------------------------------------

/// The fixed token header.
pub open spec fn token_header() -> Seq<char> {
    "{\"alg\":\"HS256\",\"typ\":\"JWT\"}"@
}

/// Claims carried by a signed token, as read back from its payload.
#[derive(Debug)]
pub struct TokenClaims {
    /// Flock (user) id.
    pub sub: String,
    /// Optional Bird (device) id.
    pub bid: Option<String>,
    /// Expiration timestamp (seconds since Unix epoch).
    pub exp: u64,
    /// Issued-at timestamp.
    pub iat: u64,
}

/// Parsed and validated token contents.
#[derive(Debug)]
pub struct AuthClaims {
    pub flock_id: u128,
    pub bird_id: Option<u128>,
}

/// Authenticated request context.
#[derive(Debug)]
pub struct AuthContext {
    pub flock_id: u128,
    pub bird_id: Option<u128>,
}

/// What checking decoded claims at time `now` gives: the Flock and Bird ids
/// when the claims are unexpired and their ids are UUIDs, else nothing.
pub open spec fn accepted_claims(sub: Seq<char>, bid: Option<Seq<char>>, exp: u64, now: u64) -> Option<
    (u128, Option<u128>),
> {
    if exp < now {
        None
    } else {
        match uuid_parse(sub) {
            None => None,
            Some(f) => match bid {
                None => Some((f, None)),
                Some(b) => match uuid_parse(b) {
                    Some(bi) => Some((f, Some(bi))),
                    None => None,
                },
            },
        }
    }
}

/// The texts a token's claims carry for its ids.
pub open spec fn bid_text(bird_id: Option<u128>) -> Option<Seq<char>> {
    match bird_id {
        Some(b) => Some(uuid_text(b)),
        None => None,
    }
}

/// The compact JSON payload of a token (`sub`, optional `bid`, `exp`, `iat`).
pub open spec fn claims_json(flock_id: u128, bird_id: Option<u128>, exp: u64, iat: u64) -> Seq<
    char,
> {
    "{\"sub\":\""@ + uuid_text(flock_id) + "\""@ + match bird_id {
        Some(b) => ",\"bid\":\""@ + uuid_text(b) + "\""@,
        None => Seq::empty(),
    } + ",\"exp\":"@ + nat_digits(exp as nat) + ",\"iat\":"@ + nat_digits(iat as nat) + "}"@
}

/// The claims serialised as the token payload.
pub fn claims_payload(flock_id: u128, bird_id: Option<u128>, exp: u64, iat: u64) -> (p: Vec<u8>)
    ensures
        p@ == encode_utf8(claims_json(flock_id, bird_id, exp, iat)),
        uuid_parse(uuid_text(flock_id)) == Some(flock_id),
        bird_id matches Some(b) ==> uuid_parse(uuid_text(b)) == Some(b),
{
    let mut j = "{\"sub\":\"".to_string();
    j.append(uuid_to_string(flock_id).as_str());
    j.append("\"");
    let ghost mid = j@;
    match bird_id {
        Some(b) => {
            j.append(",\"bid\":\"");
            j.append(uuid_to_string(b).as_str());
            j.append("\"");
        },
        None => {},
    }
    j.append(",\"exp\":");
    j.append(u64_text(exp).as_str());
    j.append(",\"iat\":");
    j.append(u64_text(iat).as_str());
    j.append("}");
    assert(j@ =~= claims_json(flock_id, bird_id, exp, iat));
    vstd::slice::slice_to_vec(j.as_str().as_bytes())
}

/// The text a token signs: `base64url(header).base64url(payload)`.
pub open spec fn signing_text(payload: Seq<u8>) -> Seq<char> {
    b64url_text(encode_utf8(token_header())) + "."@ + b64url_text(payload)
}

/// The token that signs `payload` under `key`.
pub open spec fn token_text(payload: Seq<u8>, key: Seq<u8>) -> Seq<char> {
    signing_text(payload) + "."@ + b64url_text(
        hmac_sha256_tag(key, encode_utf8(signing_text(payload))),
    )
}

/// The payload a token carries when its signature is valid under `key`:
/// three `.`-separated parts whose third decodes to the HMAC of the first two.
pub open spec fn token_accepts(t: Seq<char>, key: Seq<u8>) -> Option<Seq<u8>> {
    let parts = split_on(t, '.');
    if parts.len() != 3 {
        None
    } else {
        match b64url_read(parts[2]) {
            Some(sig) => if sig == hmac_sha256_tag(key, encode_utf8(parts[0] + "."@ + parts[1])) {
                b64url_read(parts[1])
            } else {
                None
            },
            None => None,
        }
    }
}

proof fn lemma_b64_no_dot(s: Seq<char>)
    requires
        forall|k: int| 0 <= k < s.len() ==> is_b64url_char(#[trigger] s[k]),
    ensures
        !s.contains('.'),
{
    if s.contains('.') {
        let k = choose|k: int| 0 <= k < s.len() && s[k] == '.';
        assert(is_b64url_char(s[k]));
    }
}

/// Frames and signs a token payload.
pub fn sign_token(payload: &[u8], secret: &str) -> (r: Result<String, AppError>)
    ensures
        r matches Ok(t) && t@ == token_text(payload@, encode_utf8(secret@)) && token_accepts(
            t@,
            encode_utf8(secret@),
        ) == Some(payload@),
{
    proof {
        reveal_strlit("{\"alg\":\"HS256\",\"typ\":\"JWT\"}");
    }
    let header = "{\"alg\":\"HS256\",\"typ\":\"JWT\"}".to_string();
    let header_b64 = b64_encode(header.as_str().as_bytes());
    let payload_b64 = b64_encode(payload);
    let mut signing_input = header_b64.clone();
    signing_input.append(".");
    signing_input.append(payload_b64.as_str());
    let signature = match hmac_sha256(secret.as_bytes(), signing_input.as_str().as_bytes()) {
        Ok(sig) => sig,
        Err(e) => {
            return Err(AppError::Internal(concat("invalid token secret: ", e.as_str())));
        },
    };
    let signature_b64 = b64_encode(signature.as_slice());
    let mut token = signing_input.clone();
    token.append(".");
    token.append(signature_b64.as_str());
    assert(token@ =~= token_text(payload@, encode_utf8(secret@)));
    proof {
        assert(header@ == token_header());
        lemma_b64_no_dot(header_b64@);
        lemma_b64_no_dot(payload_b64@);
        lemma_b64_no_dot(signature_b64@);
        lemma_signed_token_parts(payload@, encode_utf8(secret@));
    }
    Ok(token)
}

/// The claims of a token issued at `now` for `ttl_secs` seconds.
pub fn claims_for(flock_id: u128, bird_id: Option<u128>, now: u64, ttl_secs: u64) -> (r: Result<
    (u64, u64),
    AppError,
>)
    ensures
        now + ttl_secs <= u64::MAX ==> r == Ok::<(u64, u64), AppError>(
            ((now + ttl_secs) as u64, now),
        ),
        now + ttl_secs > u64::MAX ==> (r matches Err(AppError::Internal(m)) && m@
            == "token expiry overflow"@),
{
    match now.checked_add(ttl_secs) {
        Some(exp) => Ok((exp, now)),
        None => Err(AppError::Internal("token expiry overflow".to_string())),
    }
}

/// Create a signed token for a Flock, optionally scoped to a Bird, issued at
/// `now` and valid for `ttl_secs` seconds. The token verifies under `secret`
/// to exactly its claims, and the ids those claims carry check out as
/// `(flock_id, bird_id)` at every time up to `now + ttl_secs` and at none
/// after.
pub fn create_token_at(
    flock_id: u128,
    bird_id: Option<u128>,
    secret: &str,
    ttl_secs: u64,
    now: u64,
) -> (r: Result<String, AppError>)
    ensures
        now + ttl_secs <= u64::MAX ==> (r matches Ok(t) && t@ == token_text(
            encode_utf8(claims_json(flock_id, bird_id, (now + ttl_secs) as u64, now)),
            encode_utf8(secret@),
        ) && token_accepts(t@, encode_utf8(secret@)) == Some(
            encode_utf8(claims_json(flock_id, bird_id, (now + ttl_secs) as u64, now)),
        )),
        now + ttl_secs > u64::MAX ==> (r matches Err(AppError::Internal(m)) && m@
            == "token expiry overflow"@),
        now + ttl_secs <= u64::MAX ==> forall|at: u64|
            at <= now + ttl_secs ==> #[trigger] accepted_claims(
                uuid_text(flock_id),
                bid_text(bird_id),
                (now + ttl_secs) as u64,
                at,
            ) == Some((flock_id, bird_id)),
        now + ttl_secs <= u64::MAX ==> forall|at: u64|
            at > now + ttl_secs ==> #[trigger] accepted_claims(
                uuid_text(flock_id),
                bid_text(bird_id),
                (now + ttl_secs) as u64,
                at,
            ) is None,
{
    let (exp, iat) = claims_for(flock_id, bird_id, now, ttl_secs)?;
    let payload = claims_payload(flock_id, bird_id, exp, iat);
    sign_token(payload.as_slice(), secret)
}

/// Create a signed token for a Flock, optionally scoped to a Bird, issued
/// now. The clock read decides `iat` and `exp`; whatever it reads, the token
/// verifies under `secret` to the claims of `flock_id` and `bird_id`, and
/// those claims check out as `(flock_id, bird_id)` at any time up to the
/// expiry.
pub fn create_token(flock_id: u128, bird_id: Option<u128>, secret: &str, ttl_secs: u64) -> (r:
    Result<String, AppError>)
    ensures
        r matches Ok(t) ==> exists|now: u64|
            now + ttl_secs <= u64::MAX && token_accepts(t@, encode_utf8(secret@)) == Some(
                encode_utf8(#[trigger] claims_json(flock_id, bird_id, (now + ttl_secs) as u64, now)),
            ) && forall|at: u64|
                at <= now + ttl_secs ==> #[trigger] accepted_claims(
                    uuid_text(flock_id),
                    bid_text(bird_id),
                    (now + ttl_secs) as u64,
                    at,
                ) == Some((flock_id, bird_id)),
        r matches Err(e) ==> (e matches AppError::Internal(m) && (m@ == "token expiry overflow"@
            || "system clock error: "@.is_prefix_of(m@))),
{
    let now = match unix_now() {
        Ok(n) => n,
        Err(e) => {
            let m = concat("system clock error: ", e.as_str());
            assert("system clock error: "@.is_prefix_of(m@)) by {
                assert(m@.subrange(0, "system clock error: "@.len() as int) =~= "system clock error: "@);
            }
            return Err(AppError::Internal(m));
        },
    };
    create_token_at(flock_id, bird_id, secret, ttl_secs, now)
}

/// Splits a token into its three parts and checks its signature under the
/// secret; gives the decoded payload bytes.
pub fn verify_token(token: &str, secret: &str) -> (r: Result<Vec<u8>, AppError>)
    ensures
        match r {
            Ok(p) => token_accepts(token@, encode_utf8(secret@)) == Some(p@),
            Err(e) => token_accepts(token@, encode_utf8(secret@)) is None && e is Unauthorized,
        },
{
    let v = chars_of(token);
    let parts = split_chars(v.as_slice(), '.');
    if parts.len() != 3 {
        return Err(AppError::Unauthorized);
    }
    let p0 = string_from_chars(parts[0].as_slice());
    let p1 = string_from_chars(parts[1].as_slice());
    let p2 = string_from_chars(parts[2].as_slice());
    let mut signing_input = p0;
    signing_input.append(".");
    signing_input.append(p1.as_str());
    let signature = match b64_decode(p2.as_str()) {
        Some(s) => s,
        None => {
            return Err(AppError::Unauthorized);
        },
    };
    match hmac_sha256_verify(secret.as_bytes(), signing_input.as_str().as_bytes(), signature.as_slice()) {
        Ok(true) => {},
        _ => {
            return Err(AppError::Unauthorized);
        },
    }
    match b64_decode(p1.as_str()) {
        Some(p) => Ok(p),
        None => Err(AppError::Unauthorized),
    }
}

/// Checks decoded claims at time `now`: unexpired, with a UUID subject and,
/// when present, a UUID Bird id.
pub fn check_claims(claims: &TokenClaims, now: u64) -> (r: Result<AuthClaims, AppError>)
    ensures
        r matches Ok(a) <==> (claims.exp >= now && uuid_parse(claims.sub@) is Some && match
            claims.bid {
            Some(b) => uuid_parse(b@) is Some,
            None => true,
        }),
        r matches Ok(a) ==> Some(a.flock_id) == uuid_parse(claims.sub@) && match claims.bid {
            Some(b) => a.bird_id == uuid_parse(b@),
            None => a.bird_id is None,
        },
        r matches Err(e) ==> e is Unauthorized,
        accepted_claims(
            claims.sub@,
            match claims.bid {
                Some(b) => Some(b@),
                None => None,
            },
            claims.exp,
            now,
        ) == match r {
            Ok(a) => Some((a.flock_id, a.bird_id)),
            Err(_) => None,
        },
{
    if claims.exp < now {
        return Err(AppError::Unauthorized);
    }
    let flock_id = match parse_uuid(claims.sub.as_str()) {
        Some(id) => id,
        None => {
            return Err(AppError::Unauthorized);
        },
    };
    let bird_id = match &claims.bid {
        Some(b) => match parse_uuid(b.as_str()) {
            Some(id) => Some(id),
            None => {
                return Err(AppError::Unauthorized);
            },
        },
        None => None,
    };
    Ok(AuthClaims { flock_id, bird_id })
}

proof fn lemma_signed_token_parts(payload: Seq<u8>, key: Seq<u8>)
    requires
        b64url_read(b64url_text(payload)) == Some(payload),
        b64url_read(b64url_text(hmac_sha256_tag(key, encode_utf8(signing_text(payload)))))
            == Some(hmac_sha256_tag(key, encode_utf8(signing_text(payload)))),
        !b64url_text(encode_utf8(token_header())).contains('.'),
        !b64url_text(payload).contains('.'),
        !b64url_text(hmac_sha256_tag(key, encode_utf8(signing_text(payload)))).contains('.'),
    ensures
        token_accepts(token_text(payload, key), key) == Some(payload),
{
    reveal_strlit(".");
    let a = b64url_text(encode_utf8(token_header()));
    let b = b64url_text(payload);
    let c = b64url_text(hmac_sha256_tag(key, encode_utf8(signing_text(payload))));
    assert(token_text(payload, key) =~= a + seq!['.'] + b + seq!['.'] + c);
    lemma_split_three(a, b, c, '.');
    assert(a + "."@ + b =~= signing_text(payload));
    let parts = split_on(token_text(payload, key), '.');
    assert(parts[0] == a && parts[1] == b && parts[2] == c);
}

// ---------------------------------------------------------------------------
// Authorization header
// ---------------------------------------------------------------------------

/// The token carried by an `Authorization` header value: after a `Bearer `
/// (or `bearer `) prefix, trimmed.
pub open spec fn bearer_spec(h: Seq<char>) -> Option<Seq<char>> {
    if "Bearer "@.is_prefix_of(h) {
        Some(trim(h.skip(7)))
    } else if "bearer "@.is_prefix_of(h) {
        Some(trim(h.skip(7)))
    } else {
        None
    }
}

pub fn bearer_token(header: &str) -> (r: Option<String>)
    ensures
        match r {
            Some(t) => bearer_spec(header@) == Some(t@),
            None => bearer_spec(header@) is None,
        },
{
    proof {
        reveal_strlit("Bearer ");
        reveal_strlit("bearer ");
    }
    let v = chars_of(header);
    let upper = chars_of("Bearer ");
    let lower = chars_of("bearer ");
    if starts_with(v.as_slice(), upper.as_slice()) || starts_with(v.as_slice(), lower.as_slice()) {
        let rest = slice_range(v.as_slice(), 7, v.len());
        assert(rest@ =~= header@.skip(7));
        let rest_s = string_from_chars(rest.as_slice());
        Some(trim_str(rest_s.as_str()))
    } else {
        None
    }
}

// ---------------------------------------------------------------------------
// Passwords
// ---------------------------------------------------------------------------

/// What Argon2 verification says of a password against a PHC string: `None`
/// when the string cannot be used, otherwise whether the password matches.
pub uninterp spec fn argon2_accepts(password: Seq<char>, phc: Seq<char>) -> Option<bool>;

/// Failure of Argon2 verification.
#[derive(Debug)]
pub enum PasswordCheckError {
    /// The stored PHC string could not be parsed.
    BadHash(String),
    /// Verification failed for another reason.
    Failed(String),
}

/// `argon2::Argon2::default().hash_password` with a fresh random salt from
/// the OS. The salt is random, so the text is not determined; whatever it
/// is, it is a PHC string of the default algorithm, Argon2id (so it starts
/// with `$argon2id$`), and verifying the same password against it succeeds.
/// Checking any password of at most `argon2::MAX_PWD_LEN` bytes against it
/// ends in a yes or a no: the string parses, and hashing a candidate with
/// its parameters and salt fails only for a longer password. Whether a
/// different password is refused rests on Argon2 itself and is not stated.
#[verifier::external_body]
fn argon2_hash(password: &str) -> (r: Result<String, String>)
    ensures
        r matches Ok(h) ==> argon2_accepts(password@, h@) == Some(true),
        r matches Ok(h) ==> "$argon2id$"@.is_prefix_of(h@),
        r matches Ok(h) ==> forall|q: Seq<char>|
            encode_utf8(q).len() <= 0xFFFF_FFFF ==> (#[trigger] argon2_accepts(q, h@)) is Some,
{
    let salt = argon2::password_hash::SaltString::generate(&mut rand::rngs::OsRng);
    <argon2::Argon2 as argon2::PasswordHasher>::hash_password(
        &argon2::Argon2::default(),
        password.as_bytes(),
        &salt,
    ).map(|h| h.to_string()).map_err(|e| e.to_string())
}

/// `argon2::PasswordHash::new` followed by
/// `argon2::Argon2::default().verify_password`. A PHC string starts with
/// `$`; `PasswordHash::new` rejects any other text, the empty one too.
#[verifier::external_body]
fn argon2_verify(password: &str, phc: &str) -> (r: Result<bool, PasswordCheckError>)
    ensures
        !"$"@.is_prefix_of(phc@) ==> r matches Err(PasswordCheckError::BadHash(_)),
        r matches Ok(b) ==> argon2_accepts(password@, phc@) == Some(b),
        r is Err ==> argon2_accepts(password@, phc@) is None,
{
    let parsed = match argon2::PasswordHash::new(phc) {
        Ok(p) => p,
        Err(e) => return Err(PasswordCheckError::BadHash(e.to_string())),
    };
    match <argon2::Argon2 as argon2::PasswordVerifier>::verify_password(
        &argon2::Argon2::default(),
        password.as_bytes(),
        &parsed,
    ) {
        Ok(()) => Ok(true),
        Err(argon2::password_hash::Error::Password) => Ok(false),
        Err(e) => Err(PasswordCheckError::Failed(e.to_string())),
    }
}

/// Hash a plaintext password with Argon2id.
pub fn hash_password(password: &str) -> (r: Result<String, AppError>)
    ensures
        r matches Ok(h) ==> argon2_accepts(password@, h@) == Some(true),
        r matches Ok(h) ==> "$argon2id$"@.is_prefix_of(h@),
        r matches Ok(h) ==> forall|q: Seq<char>|
            encode_utf8(q).len() <= 0xFFFF_FFFF ==> (#[trigger] argon2_accepts(q, h@)) is Some,
        r matches Err(e) ==> e is Internal,
{
    match argon2_hash(password) {
        Ok(h) => Ok(h),
        Err(e) => Err(AppError::Internal(concat("failed to hash password: ", e.as_str()))),
    }
}

/// Verify a plaintext password against an Argon2 PHC string.
pub fn verify_password(password: &str, password_hash: &str) -> (r: Result<bool, AppError>)
    ensures
        match argon2_accepts(password@, password_hash@) {
            Some(b) => r == Ok::<bool, AppError>(b),
            None => r matches Err(e) && e is Internal,
        },
        !"$"@.is_prefix_of(password_hash@) ==> (r matches Err(AppError::Internal(m))
            && "invalid stored password hash: "@.is_prefix_of(m@)),
{
    match argon2_verify(password, password_hash) {
        Ok(b) => Ok(b),
        Err(PasswordCheckError::BadHash(e)) => {
            let m = concat("invalid stored password hash: ", e.as_str());
            assert("invalid stored password hash: "@.is_prefix_of(m@)) by {
                assert(m@.subrange(0, "invalid stored password hash: "@.len() as int)
                    =~= "invalid stored password hash: "@);
            }
            Err(AppError::Internal(m))
        },
        Err(PasswordCheckError::Failed(e)) => Err(
            AppError::Internal(concat("failed to verify password: ", e.as_str())),
        ),
    }
}

/// The login decision: the stored account, when its password verifies. An
/// unknown user and a wrong password are both `Unauthorized`, so the answer
/// does not tell which; a stored hash that cannot be checked is an internal
/// error.
pub fn check_login<T>(password: &str, credentials: Option<(T, String)>) -> (r: Result<T, AppError>)
    ensures
        match credentials {
            None => r matches Err(AppError::Unauthorized),
            Some((account, stored)) => match argon2_accepts(password@, stored@) {
                Some(true) => r == Ok::<T, AppError>(account),
                Some(false) => r matches Err(AppError::Unauthorized),
                None => r matches Err(AppError::Internal(_)),
            },
        },
{
    match credentials {
        None => Err(AppError::Unauthorized),
        Some((account, stored)) => match verify_password(password, stored.as_str()) {
            Ok(true) => Ok(account),
            Ok(false) => Err(AppError::Unauthorized),
            Err(e) => Err(e),
        },
    }
}

} // verus!
