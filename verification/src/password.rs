//! Salted one-way password hashing and verification.
//!
//! The slow hash itself is bcrypt's; this module pins down how the two
//! operations relate: a record produced from a password is accepted for
//! that password, and verification is a deterministic decision over the
//! password and the record.

use vstd::prelude::*;

verus! {

/// What `bcrypt::verify` decides for a password and a stored hash record;
/// the decision depends on the two arguments alone.
pub uninterp spec fn bcrypt_matches(password: Seq<char>, hash: Seq<char>) -> bool;

/// Relies on `bcrypt::hash` with the default cost: the record it produces
/// under a fresh random salt is the standard 60-character hash string and
/// is accepted by `bcrypt::verify` for the same password.  It fails only
/// when the process cannot obtain OS randomness for the salt.
#[verifier::external_body]
fn bcrypt_hash(password: &str) -> (r: Result<String, ()>)
    ensures
        r matches Ok(h) ==> bcrypt_matches(password@, h@) && h@.len() == 60,
{
    bcrypt::hash(password, bcrypt::DEFAULT_COST).map_err(|_| ())
}

/// Relies on `bcrypt::verify`: deterministic in the password and the
/// record; a mismatch and a malformed record both answer `false`.
#[verifier::external_body]
fn bcrypt_check(password: &str, hash: &str) -> (r: bool)
    ensures
        r == bcrypt_matches(password@, hash@),
{
    matches!(bcrypt::verify(password, hash), Ok(true))
}

/// Hash a password with a per-record random salt.  A hashing failure is an
/// infrastructure failure and never degrades to storing the plaintext.
pub fn hash_password(password: &str) -> (r: Result<String, crate::models::AuthError>)
    ensures
        r matches Ok(h) ==> bcrypt_matches(password@, h@) && h@.len() == 60,
        r matches Err(e) ==> e == crate::models::AuthError::InternalError,
{
    match bcrypt_hash(password) {
        Ok(h) => Ok(h),
        Err(_) => Err(crate::models::AuthError::InternalError),
    }
}

/// Check a password against a stored hash record.
pub fn verify_password(password: &str, hash: &str) -> (r: bool)
    ensures
        r == bcrypt_matches(password@, hash@),
{
    bcrypt_check(password, hash)
}

} // verus!
