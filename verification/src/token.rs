//! Issuance and verification of signed access tokens.
//!
//! A token carries the claims `sub` (the user's email), `role` (a string
//! snapshot of the user's role at issuance) and `exp` (absolute epoch
//! seconds), serialized and signed with a shared secret under an
//! HMAC-SHA256 scheme.  Signing is jsonwebtoken's; this module pins the
//! token down as a deterministic function of claims and secret, and proves
//! the expiry decision: verification accepts a token exactly while the
//! clock has not reached its expiry, and every failure — tampered,
//! malformed or expired — is the same `Unauthorized` outcome.

use vstd::prelude::*;

verus! {

/// Decoded payload of a signed token.
#[derive(Clone, Debug)]
pub struct Claims {
    pub sub: String,
    pub role: String,
    pub exp: usize,
}

/// Lifetime of an access token, in seconds.
pub const ACCESS_TOKEN_TTL_SECS: usize = 600;

/// The signed token that the claims `(sub, role, exp)` serialize to under
/// a secret; a deterministic function of its four arguments.
pub uninterp spec fn token_of(sub: Seq<char>, role: Seq<char>, exp: usize, secret: Seq<u8>) -> Seq<
    char,
>;

/// Relies on `jsonwebtoken::encode` with `Header::default()` (HS256) and a
/// plain secret key: the token is a deterministic function of the claims
/// and the secret.  On this path — HMAC family key, HMAC header, claims
/// that are a plain JSON object — the encode cannot fail.
#[verifier::external_body]
fn jwt_encode(sub: &str, role: &str, exp: usize, secret: &[u8]) -> (t: String)
    ensures
        t@ == token_of(sub@, role@, exp, secret@),
{
    let mut claims = serde_json::Map::new();
    claims.insert("exp".to_owned(), serde_json::Value::from(exp as u64));
    claims.insert("role".to_owned(), serde_json::Value::from(role));
    claims.insert("sub".to_owned(), serde_json::Value::from(sub));
    let key = jsonwebtoken::EncodingKey::from_secret(secret);
    let header = jsonwebtoken::Header::default();
    jsonwebtoken::encode(&header, &serde_json::Value::Object(claims), &key)
        .expect("HMAC encoding of plain JSON claims does not fail")
}

/// Whatever claims the token is the encoding of under the secret, the
/// decode result holds exactly those claims.
pub open spec fn decodes_to(r: Option<Claims>, token: Seq<char>, secret: Seq<u8>) -> bool {
    forall|s: Seq<char>, ro: Seq<char>, e: usize|
        token == #[trigger] token_of(s, ro, e, secret) ==> (r matches Some(c) && c.sub@ == s
            && c.role@ == ro && c.exp == e)
}

/// Relies on `jsonwebtoken::decode` restricted to HS256, with the expiry
/// check turned off so that the call decides on the token and the secret
/// alone: a token that is exactly the encoding of some claims under this
/// secret decodes back to those claims.  Of any other token nothing is
/// assumed.
#[verifier::external_body]
fn jwt_decode(token: &str, secret: &[u8]) -> (r: Option<Claims>)
    ensures
        decodes_to(r, token@, secret@),
{
    let mut validation = jsonwebtoken::Validation::new(jsonwebtoken::Algorithm::HS256);
    validation.validate_exp = false;
    let key = jsonwebtoken::DecodingKey::from_secret(secret);
    let data = jsonwebtoken::decode::<serde_json::Value>(token, &key, &validation).ok()?;
    let sub = data.claims.get("sub")?.as_str()?.to_owned();
    let role = data.claims.get("role")?.as_str()?.to_owned();
    let exp = data.claims.get("exp")?.as_u64()? as usize;
    Some(Claims { sub, role, exp })
}

/// Issue a signed token for `subject` with a role snapshot and an absolute
/// expiry of `now + ttl` seconds, which is strictly in the future.
pub fn issue(subject: &str, role: &str, now: usize, ttl: usize, secret: &[u8]) -> (t: String)
    requires
        0 < ttl,
        now + ttl <= usize::MAX,
    ensures
        t@ == token_of(subject@, role@, (now + ttl) as usize, secret@),
{
    jwt_encode(subject, role, now + ttl, secret)
}

/// Verify a presented token against the secret and the clock.  A token
/// issued for `(sub, role, exp)` under this secret is accepted with
/// exactly those claims while `now < exp`, and rejected once `now >= exp`
/// with zero clock-skew grace; tampered or malformed tokens are rejected.
/// Every rejection is the same `Unauthorized` outcome, so expiry,
/// tampering and malformation are indistinguishable to the caller.
pub fn verify(token: &str, secret: &[u8], now: usize) -> (r: Result<
    Claims,
    crate::models::AuthError,
>)
    ensures
        forall|s: Seq<char>, ro: Seq<char>, e: usize|
            token@ == #[trigger] token_of(s, ro, e, secret@) ==> (if now < e {
                r matches Ok(c) && c.sub@ == s && c.role@ == ro && c.exp == e
            } else {
                r matches Err(er) && er == crate::models::AuthError::Unauthorized
            }),
        r matches Ok(c) ==> now < c.exp,
        r matches Err(e) ==> e == crate::models::AuthError::Unauthorized,
{
    match jwt_decode(token, secret) {
        None => Err(crate::models::AuthError::Unauthorized),
        Some(c) => {
            if now < c.exp {
                Ok(c)
            } else {
                Err(crate::models::AuthError::Unauthorized)
            }
        },
    }
}

} // verus!
