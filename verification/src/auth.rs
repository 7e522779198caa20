use vstd::prelude::*;

use crate::error::ApiError;
use crate::store::{stored_password, Store};

verus! {

/// Seconds in the 24-hour lifetime of a session token.
pub const SESSION_SECONDS: u64 = 86400;

/// The claims carried by a session token: the subject (the username it was
/// issued to) and the expiry as seconds since the Unix epoch.
pub struct Claims {
    pub sub: String,
    pub exp: u64,
}

/// What decoding a token under a secret yields: the `(subject, expiry)`
/// claims when the token is well-formed and its signature matches the
/// secret, and nothing otherwise. With the fixed validation policy used
/// here the result is a function of the token and the secret alone.
pub uninterp spec fn decoded_claims(token: Seq<char>, secret: Seq<char>) -> Option<
    (Seq<char>, u64),
>;

/// Relies on jsonwebtoken::encode (HS256): the token it returns is accepted
/// by jsonwebtoken::decode under the same secret and carries exactly the
/// claims it was built from. Issuance cannot fail on this path: HMAC
/// signing is total, and serialising string-keyed claims never errs.
#[verifier::external_body]
fn encode_token(sub: &String, exp: u64, secret: &str) -> (r: Option<String>)
    ensures
        r is Some,
        r matches Some(t) ==> decoded_claims(t@, secret@) == Some((sub@, exp)),
{
    let mut claims = serde_json::Map::new();
    claims.insert("sub".to_string(), serde_json::Value::String(sub.clone()));
    claims.insert("exp".to_string(), serde_json::Value::Number(serde_json::Number::from(exp)));
    let key = jsonwebtoken::EncodingKey::from_secret(secret.as_bytes());
    jsonwebtoken::encode(&jsonwebtoken::Header::default(), &serde_json::Value::Object(claims), &key)
        .ok()
}

/// Relies on jsonwebtoken::decode (HS256, with the expiry check left to the
/// caller so that the call is a pure function of token and secret): a
/// malformed token or one whose signature does not match the secret is
/// rejected, and an accepted token yields its subject and expiry claims.
#[verifier::external_body]
fn decode_token(token: &str, secret: &str) -> (r: Option<Claims>)
    ensures
        r matches Some(c) ==> decoded_claims(token@, secret@) == Some((c.sub@, c.exp)),
        r is None ==> decoded_claims(token@, secret@) is None,
{
    let key = jsonwebtoken::DecodingKey::from_secret(secret.as_bytes());
    let mut validation = jsonwebtoken::Validation::default();
    validation.validate_exp = false;
    let data = jsonwebtoken::decode::<serde_json::Value>(token, &key, &validation).ok()?;
    let sub = data.claims.get("sub")?.as_str()?.to_string();
    let exp = data.claims.get("exp")?.as_u64()?;
    Some(Claims { sub, exp })
}

/// The expiry of a session issued at `now`: 24 hours later, clamped at the
/// end of representable time.
pub open spec fn session_expiry(now: u64) -> u64 {
    if now + SESSION_SECONDS <= u64::MAX {
        (now + SESSION_SECONDS) as u64
    } else {
        u64::MAX
    }
}

/// The expiry of a session issued at `now`.
pub fn token_expiry(now: u64) -> (e: u64)
    ensures
        e == session_expiry(now),
{
    if now <= u64::MAX - SESSION_SECONDS {
        now + SESSION_SECONDS
    } else {
        u64::MAX
    }
}

/// Checks the credentials against the store: a wrong password or unknown
/// username fails with `Unauthorized`, and correct credentials always earn
/// a session token for `username` that expires 24 hours after `now`.
pub fn login(store: &Store, username: &String, password: &String, secret: &str, now: u64) -> (r:
    Result<String, ApiError>)
    requires
        store@.wf(),
    ensures
        stored_password(store@.users, username@) == Some(password@) ==> r is Ok,
        match r {
            Ok(t) => stored_password(store@.users, username@) == Some(password@)
                && decoded_claims(t@, secret@) == Some((username@, session_expiry(now))),
            Err(ApiError::Unauthorized) => stored_password(store@.users, username@) != Some(
                password@,
            ),
            Err(_) => false,
        },
{
    match store.lookup_password(username) {
        None => Err(ApiError::Unauthorized),
        Some(stored) => {
            if stored == *password {
                let exp = token_expiry(now);
                match encode_token(username, exp, secret) {
                    Some(t) => Ok(t),
                    // unreachable: issuance is total for this algorithm
                    None => Err(ApiError::Unauthorized),
                }
            } else {
                Err(ApiError::Unauthorized)
            }
        },
    }
}

/// Verifies a session token at time `now`: a malformed token, one signed
/// under another secret, and one whose expiry has passed all fail with
/// `Unauthorized`; a live token yields the subject it was issued to.
pub fn verify_token(token: &str, secret: &str, now: u64) -> (r: Result<String, ApiError>)
    ensures
        match decoded_claims(token@, secret@) {
            Some((sub, exp)) => if now < exp {
                r matches Ok(u) && u@ == sub
            } else {
                r == Err::<String, ApiError>(ApiError::Unauthorized)
            },
            None => r == Err::<String, ApiError>(ApiError::Unauthorized),
        },
{
    match decode_token(token, secret) {
        None => Err(ApiError::Unauthorized),
        Some(c) => {
            if now < c.exp {
                Ok(c.sub)
            } else {
                Err(ApiError::Unauthorized)
            }
        },
    }
}

/// The token carried by an `Authorization` header value: the remainder
/// after a literal `Bearer ` prefix, if the value has one.
pub open spec fn bearer_of(header: Seq<char>) -> Option<Seq<char>> {
    if header.len() >= 7 && header[0] == 'B' && header[1] == 'e' && header[2] == 'a' && header[3]
        == 'r' && header[4] == 'e' && header[5] == 'r' && header[6] == ' ' {
        Some(header.skip(7))
    } else {
        None
    }
}

/// Splits the bearer token out of an `Authorization` header value.
fn bearer_token<'a>(header: &'a str) -> (r: Option<&'a str>)
    ensures
        match bearer_of(header@) {
            Some(t) => r matches Some(s) && s@ == t,
            None => r is None,
        },
{
    let n = header.unicode_len();
    if n < 7 {
        return None;
    }
    if header.get_char(0) != 'B' || header.get_char(1) != 'e' || header.get_char(2) != 'a'
        || header.get_char(3) != 'r' || header.get_char(4) != 'e' || header.get_char(5) != 'r'
        || header.get_char(6) != ' ' {
        return None;
    }
    let t = header.substring_char(7, n);
    proof {
        assert(t@ =~= header@.skip(7));
    }
    Some(t)
}

/// The view of an optional header value.
pub open spec fn opt_str_view(h: Option<&str>) -> Option<Seq<char>> {
    match h {
        Some(s) => Some(s@),
        None => None,
    }
}

/// The subject authenticated by an `Authorization` header at time `now`:
/// the subject of a live bearer token signed under the secret, if the
/// header carries one.
pub open spec fn auth_user(header: Option<Seq<char>>, secret: Seq<char>, now: u64) -> Option<
    Seq<char>,
> {
    match header {
        None => None,
        Some(h) => match bearer_of(h) {
            None => None,
            Some(t) => match decoded_claims(t, secret) {
                None => None,
                Some((sub, exp)) => if now < exp {
                    Some(sub)
                } else {
                    None
                },
            },
        },
    }
}

/// The request guard: extracts the bearer token from the `Authorization`
/// header value, if any, and verifies it; every failure is `Unauthorized`.
pub fn authorize(header: Option<&str>, secret: &str, now: u64) -> (r: Result<String, ApiError>)
    ensures
        match auth_user(opt_str_view(header), secret@, now) {
            Some(u) => r matches Ok(s) && s@ == u,
            None => r == Err::<String, ApiError>(ApiError::Unauthorized),
        },
{
    match header {
        None => Err(ApiError::Unauthorized),
        Some(h) => match bearer_token(h) {
            None => Err(ApiError::Unauthorized),
            Some(t) => verify_token(t, secret, now),
        },
    }
}

} // verus!
