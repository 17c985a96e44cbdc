//! Data types shared by the authentication flows: user records, request and
//! response bodies, the role enumeration and the error taxonomy.

use vstd::prelude::*;

verus! {

/// Closed set of user roles.  Produced from the string stored in the user
/// record once, at the data boundary.
#[derive(Clone, Debug, PartialEq, Eq, Structural)]
pub enum Role {
    Admin,
    User,
}

/// What the result of `str::to_lowercase` is; it depends on the characters
/// of the input alone.
pub uninterp spec fn lower_of(s: Seq<char>) -> Seq<char>;

/// Relies on `str::to_lowercase`: the result is a function of the input
/// characters alone.
#[verifier::external_body]
fn lowercase(s: &str) -> (r: String)
    ensures
        r@ == lower_of(s@),
{
    s.to_lowercase()
}

/// The role denoted by a stored role string: `"admin"` in any letter case
/// maps to `Admin`, every other string falls back to `User`.
pub open spec fn role_of_chars(s: Seq<char>) -> Role {
    if lower_of(s) == "admin"@ {
        Role::Admin
    } else {
        Role::User
    }
}

impl From<String> for Role {
    /// Case-insensitive mapping from a stored role string to the closed
    /// enumeration; unknown values fall back to `User`.
    fn from(value: String) -> (r: Role)
        ensures
            r == role_of_chars(value@),
    {
        let lower = lowercase(value.as_str());
        let admin = "admin".to_owned();
        if lower == admin {
            Role::Admin
        } else {
            Role::User
        }
    }
}

impl vstd::std_specs::convert::FromSpecImpl<String> for Role {
    open spec fn obeys_from_spec() -> bool {
        true
    }

    open spec fn from_spec(v: String) -> Role {
        role_of_chars(v@)
    }
}

/// Identity record as the user repository stores it.
#[derive(Clone, Debug)]
pub struct User {
    pub id: i32,
    pub email: Option<String>,
    pub first_name: Option<String>,
    pub last_name: Option<String>,
    pub password: String,
    pub role: String,
}

/// Body of a registration request.
pub struct RegisterRequest {
    pub first_name: String,
    pub last_name: String,
    pub email: String,
    pub password: String,
}

/// Body of a registration response.
pub struct RegisterResponse {
    pub id: u32,
    pub first_name: String,
    pub last_name: String,
    pub email: String,
}

/// Body of a login request.
pub struct LoginRequest {
    pub email: String,
    pub password: String,
}

/// Body of a successful login or refresh response.
#[derive(Debug)]
pub struct LoginResponse {
    pub token: String,
}

/// Marker for the authentication part of the HTTP surface.
pub struct AuthApi;

/// Marker for the role-gated part of the HTTP surface.
pub struct ProtectedApi;

/// Error taxonomy of the service.  Bad credentials, unknown or expired
/// tokens and consumed refresh tokens all map to `Unauthorized` so that the
/// failure paths are indistinguishable from outside.
#[derive(Clone, Debug, PartialEq, Eq, Structural)]
pub enum AuthError {
    BadRequest,
    Unauthorized,
    Forbidden,
    InternalError,
}

impl AuthError {
    /// The HTTP status that a failure maps to.
    pub open spec fn status_spec(&self) -> u16 {
        match self {
            AuthError::BadRequest => 400,
            AuthError::Unauthorized => 401,
            AuthError::Forbidden => 403,
            AuthError::InternalError => 500,
        }
    }

    /// HTTP status code of this error.
    pub fn status(&self) -> (s: u16)
        ensures
            s == self.status_spec(),
    {
        match self {
            AuthError::BadRequest => 400,
            AuthError::Unauthorized => 401,
            AuthError::Forbidden => 403,
            AuthError::InternalError => 500,
        }
    }
}

} // verus!
