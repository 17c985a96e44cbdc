//! Decision logic of the authentication flows.
//!
//! Each function here is the compute step of one HTTP flow: the caller
//! performs the I/O around it — reading the request, looking users up in
//! the repository, writing the response — and hands plain values in.
//! Registration validates and hashes, login decides on credentials and
//! grants tokens, refresh re-issues for a rotated token, and the
//! middleware plus the role gate decide what a protected request may do.

use vstd::prelude::*;
use crate::headers::{bearer_token_of, extract_bearer};
use crate::models::{AuthError, RegisterRequest, Role, User, LoginResponse, role_of_chars};
use crate::password::{bcrypt_matches, hash_password, verify_password};
use crate::registry::{RefreshTokenRegistry, REFRESH_TOKEN_TTL_SECS};
use crate::token::{issue, verify, token_of, Claims, ACCESS_TOKEN_TTL_SECS};

verus! {

/// Outcome of the repository insert that registration asks for: the row
/// was inserted, the email's uniqueness constraint was violated, or the
/// store failed in some other way.
#[derive(Clone, Debug, PartialEq, Eq, Structural)]
pub enum InsertOutcome {
    Inserted,
    DuplicateEmail,
    Failed,
}

/// What a successful login hands back: the response body with the signed
/// access token, and the refresh token that the cookie carries.
#[derive(Debug)]
pub struct LoginGrant {
    pub response: LoginResponse,
    pub refresh_token: String,
}

/// Validate a registration request and hash its password.  An empty email
/// or password is rejected as `BadRequest`; a hashing failure is an
/// `InternalError`, never a fallback to storing the plaintext.
pub fn prepare_registration(req: &RegisterRequest) -> (r: Result<String, AuthError>)
    ensures
        (req.email@.len() == 0 || req.password@.len() == 0) <==> (r matches Err(e) && e
            == AuthError::BadRequest),
        r matches Ok(h) ==> bcrypt_matches(req.password@, h@) && h@.len() == 60,
        r matches Err(e) ==> e == AuthError::BadRequest || e == AuthError::InternalError,
{
    if req.email.as_str().is_empty() || req.password.as_str().is_empty() {
        return Err(AuthError::BadRequest);
    }
    hash_password(req.password.as_str())
}

/// HTTP status of a registration, from the repository's insert outcome: a
/// duplicate email is the caller's fault, any other storage failure is the
/// service's.
pub fn register_status(outcome: &InsertOutcome) -> (s: u16)
    ensures
        s == (match outcome {
            InsertOutcome::Inserted => 201u16,
            InsertOutcome::DuplicateEmail => 400u16,
            InsertOutcome::Failed => 500u16,
        }),
{
    match outcome {
        InsertOutcome::Inserted => 201,
        InsertOutcome::DuplicateEmail => 400,
        InsertOutcome::Failed => 500,
    }
}

/// Decide a login attempt.  A missing user and a failing password check
/// yield the very same `Unauthorized` error, so the response gives no
/// user-existence oracle.  On success the grant carries an access token
/// for the user's email and role snapshot expiring in
/// `ACCESS_TOKEN_TTL_SECS`, and a refresh token newly bound to the email
/// in the registry.
pub fn login_user(
    user: Option<&User>,
    password: &str,
    now: usize,
    secret: &[u8],
    registry: &mut RefreshTokenRegistry,
) -> (r: Result<LoginGrant, AuthError>)
    requires
        now + ACCESS_TOKEN_TTL_SECS <= usize::MAX,
        now + REFRESH_TOKEN_TTL_SECS <= usize::MAX,
        user matches Some(u) ==> u.email is Some,
    ensures
        user is None ==> (r matches Err(e) && e == AuthError::Unauthorized) && final(registry)@
            == old(registry)@,
        user matches Some(u) ==> !bcrypt_matches(password@, u.password@) ==> (r matches Err(e)
            && e == AuthError::Unauthorized) && final(registry)@ == old(registry)@,
        user matches Some(u) ==> bcrypt_matches(password@, u.password@) ==> (r matches Ok(g)
            && g.response.token@ == token_of(
            u.email->0@,
            u.role@,
            (now + ACCESS_TOKEN_TTL_SECS) as usize,
            secret@,
        ) && g.refresh_token@.len() == 64 && final(registry)@ == old(registry)@.insert(
            g.refresh_token@,
            (u.email->0@, (now + REFRESH_TOKEN_TTL_SECS) as usize),
        )),
{
    match user {
        None => Err(AuthError::Unauthorized),
        Some(u) => {
            if verify_password(password, u.password.as_str()) {
                match &u.email {
                    Some(email) => {
                        let token = issue(
                            email.as_str(),
                            u.role.as_str(),
                            now,
                            ACCESS_TOKEN_TTL_SECS,
                            secret,
                        );
                        let refresh_token = registry.create(email, now);
                        Ok(LoginGrant { response: LoginResponse { token }, refresh_token })
                    },
                    None => Err(AuthError::Unauthorized),
                }
            } else {
                Err(AuthError::Unauthorized)
            }
        },
    }
}

/// Re-issue an access token after a refresh-token rotation resolved its
/// subject.  A subject that no longer resolves to a user is rejected with
/// the same `Unauthorized` as an unknown refresh token.
pub fn refresh_login(user: Option<&User>, now: usize, secret: &[u8]) -> (r: Result<
    LoginResponse,
    AuthError,
>)
    requires
        now + ACCESS_TOKEN_TTL_SECS <= usize::MAX,
        user matches Some(u) ==> u.email is Some,
    ensures
        user is None ==> (r matches Err(e) && e == AuthError::Unauthorized),
        user matches Some(u) ==> (r matches Ok(resp) && resp.token@ == token_of(
            u.email->0@,
            u.role@,
            (now + ACCESS_TOKEN_TTL_SECS) as usize,
            secret@,
        )),
{
    match user {
        None => Err(AuthError::Unauthorized),
        Some(u) => {
            match &u.email {
                Some(email) => {
                    let token = issue(
                        email.as_str(),
                        u.role.as_str(),
                        now,
                        ACCESS_TOKEN_TTL_SECS,
                        secret,
                    );
                    Ok(LoginResponse { token })
                },
                None => Err(AuthError::Unauthorized),
            }
        },
    }
}

/// The middleware's token step: take the `Authorization` header of a
/// protected request, demand a bearer token, and verify it.  A missing
/// header, a non-bearer scheme and a failing verification are all the same
/// `Unauthorized`.
pub fn check_bearer(header: Option<&str>, secret: &[u8], now: usize) -> (r: Result<
    Claims,
    AuthError,
>)
    ensures
        header is None ==> (r matches Err(e) && e == AuthError::Unauthorized),
        header matches Some(h) ==> bearer_token_of(h@) is None ==> (r matches Err(e) && e
            == AuthError::Unauthorized),
        header matches Some(h) ==> bearer_token_of(h@) matches Some(t) ==> (forall|
            s: Seq<char>,
            ro: Seq<char>,
            e: usize,
        |
            t == #[trigger] token_of(s, ro, e, secret@) ==> (if now < e {
                r matches Ok(c) && c.sub@ == s && c.role@ == ro && c.exp == e
            } else {
                r matches Err(er) && er == AuthError::Unauthorized
            })),
        r matches Ok(c) ==> now < c.exp,
        r matches Err(e) ==> e == AuthError::Unauthorized,
{
    match header {
        None => Err(AuthError::Unauthorized),
        Some(h) => {
            match extract_bearer(h) {
                None => Err(AuthError::Unauthorized),
                Some(t) => verify(t.as_str(), secret, now),
            }
        },
    }
}

/// The middleware's resolution step: the subject of a verified token must
/// still resolve to a user; the resolved record, not the claims snapshot,
/// is what downstream handlers see.
pub fn resolve_user(user: Option<User>) -> (r: Result<User, AuthError>)
    ensures
        user matches Some(u) ==> (r matches Ok(ru) && ru == u),
        user is None ==> (r matches Err(e) && e == AuthError::Unauthorized),
{
    match user {
        Some(u) => Ok(u),
        None => Err(AuthError::Unauthorized),
    }
}

/// The role gate: no required role admits everyone; a required role admits
/// exactly that role.
pub fn role_allows(role: &Role, required: Option<Role>) -> (r: bool)
    ensures
        r == (match required {
            None => true,
            Some(req) => *role == req,
        }),
{
    match required {
        None => true,
        Some(req) => *role == req,
    }
}

/// Gate of the admin surface: allowed exactly when the user's stored role
/// string denotes `Admin`; everyone else is authenticated but not
/// permitted, which is `Forbidden`, not `Unauthorized`.
pub fn admin_access(user: &User) -> (r: Result<(), AuthError>)
    ensures
        r is Ok <==> role_of_chars(user.role@) == Role::Admin,
        r matches Err(e) ==> e == AuthError::Forbidden,
{
    let role = Role::from(user.role.clone());
    if role_allows(&role, Some(Role::Admin)) {
        Ok(())
    } else {
        Err(AuthError::Forbidden)
    }
}

} // verus!
