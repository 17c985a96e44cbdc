use auth_core::models::AuthError;
use auth_core::token::{issue, verify, ACCESS_TOKEN_TTL_SECS};

const SECRET: &[u8] = b"test-signing-SECRET-REDACTED";

#[test]
fn issued_token_verifies_before_expiry() {
    let t = issue("alice@x.com", "User", 1_000_000, ACCESS_TOKEN_TTL_SECS, SECRET);
    let claims = verify(&t, SECRET, 1_000_000).expect("fresh token should verify");
    assert_eq!(claims.sub, "alice@x.com");
    assert_eq!(claims.role, "User");
    assert_eq!(claims.exp, 1_000_000 + ACCESS_TOKEN_TTL_SECS);

    // still valid one second before expiry
    let claims = verify(&t, SECRET, 1_000_000 + ACCESS_TOKEN_TTL_SECS - 1)
        .expect("token should verify until its expiry");
    assert_eq!(claims.sub, "alice@x.com");
}

#[test]
fn issued_token_rejected_once_expired() {
    let t = issue("alice@x.com", "User", 1_000_000, ACCESS_TOKEN_TTL_SECS, SECRET);
    // exactly at expiry: rejected, zero grace
    let r = verify(&t, SECRET, 1_000_000 + ACCESS_TOKEN_TTL_SECS);
    assert_eq!(r.unwrap_err(), AuthError::Unauthorized);
    let r = verify(&t, SECRET, 2_000_000);
    assert_eq!(r.unwrap_err(), AuthError::Unauthorized);
}

#[test]
fn tampered_token_rejected() {
    let t = issue("alice@x.com", "User", 1_000_000, ACCESS_TOKEN_TTL_SECS, SECRET);
    let mut tampered = t.clone();
    // flip the last signature character
    let last = tampered.pop().unwrap();
    tampered.push(if last == 'A' { 'B' } else { 'A' });
    let r = verify(&tampered, SECRET, 1_000_000);
    assert_eq!(r.unwrap_err(), AuthError::Unauthorized);
}

#[test]
fn token_signed_with_other_secret_rejected() {
    let t = issue("alice@x.com", "User", 1_000_000, ACCESS_TOKEN_TTL_SECS, b"other-secret");
    let r = verify(&t, SECRET, 1_000_000);
    assert_eq!(r.unwrap_err(), AuthError::Unauthorized);
}

#[test]
fn malformed_token_rejected() {
    assert_eq!(verify("", SECRET, 0).unwrap_err(), AuthError::Unauthorized);
    assert_eq!(verify("abc", SECRET, 0).unwrap_err(), AuthError::Unauthorized);
    assert_eq!(verify("a.b.c", SECRET, 0).unwrap_err(), AuthError::Unauthorized);
}

#[test]
fn role_snapshot_carried_in_claims() {
    let t = issue("root@x.com", "Admin", 5_000, 100, SECRET);
    let claims = verify(&t, SECRET, 5_050).expect("token should verify");
    assert_eq!(claims.role, "Admin");
    assert_eq!(claims.exp, 5_100);
}
