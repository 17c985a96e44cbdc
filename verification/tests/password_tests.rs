use auth_core::password::{hash_password, verify_password};

#[test]
fn hash_then_verify_accepts_same_password() {
    let hash = hash_password("pw123").expect("hashing should succeed");
    assert!(verify_password("pw123", &hash));
}

#[test]
fn hash_then_verify_rejects_mutated_password() {
    let hash = hash_password("pw123").expect("hashing should succeed");
    assert!(!verify_password("pw124", &hash));
    assert!(!verify_password("pw12", &hash));
    assert!(!verify_password("Pw123", &hash));
    assert!(!verify_password("", &hash));
}

#[test]
fn hash_record_is_standard_bcrypt_shape() {
    let hash = hash_password("pw123").expect("hashing should succeed");
    assert_eq!(hash.len(), 60);
    assert!(hash.starts_with("$2"));
}

#[test]
fn two_hashes_of_same_password_use_different_salts() {
    let h1 = hash_password("pw123").expect("hashing should succeed");
    let h2 = hash_password("pw123").expect("hashing should succeed");
    assert_ne!(h1, h2);
    assert!(verify_password("pw123", &h1));
    assert!(verify_password("pw123", &h2));
}

#[test]
fn verify_rejects_malformed_record() {
    assert!(!verify_password("pw123", "not-a-bcrypt-record"));
    assert!(!verify_password("pw123", ""));
}
