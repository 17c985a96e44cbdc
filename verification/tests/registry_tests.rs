use auth_core::registry::{RefreshTokenRegistry, REFRESH_TOKEN_TTL_SECS};

const NOW: usize = 1_700_000_000;

#[test]
fn created_token_is_registered_and_opaque() {
    let mut reg = RefreshTokenRegistry::new();
    let subject = String::from("alice@x.com");
    let t = reg.create(&subject, NOW);
    assert_eq!(t.len(), 64);
    assert!(t.chars().all(|c| c.is_ascii_alphanumeric()));
    assert!(reg.contains(&t));
}

#[test]
fn consume_is_single_use() {
    let mut reg = RefreshTokenRegistry::new();
    let subject = String::from("alice@x.com");
    let t = reg.create(&subject, NOW);
    assert_eq!(reg.consume(&t, NOW), Some(subject));
    // a second consume of the same token finds nothing
    assert_eq!(reg.consume(&t, NOW), None);
    assert!(!reg.contains(&t));
}

#[test]
fn consume_unknown_token_finds_nothing() {
    let mut reg = RefreshTokenRegistry::new();
    let subject = String::from("alice@x.com");
    let t = reg.create(&subject, NOW);
    assert_eq!(reg.consume(&String::from("no-such-token"), NOW), None);
    // the registered token is untouched
    assert!(reg.contains(&t));
}

#[test]
fn rotate_twice_on_same_token_succeeds_exactly_once() {
    let mut reg = RefreshTokenRegistry::new();
    let subject = String::from("alice@x.com");
    let t = reg.create(&subject, NOW);
    let (subj, fresh) = reg.rotate(&t, NOW).expect("first rotation should succeed");
    assert_eq!(subj, subject);
    assert_ne!(fresh, t);
    // the same token again: exactly one success, one failure
    assert_eq!(reg.rotate(&t, NOW), None);
    assert!(reg.contains(&fresh));
}

#[test]
fn rotation_continuity_keeps_subject_reachable() {
    let mut reg = RefreshTokenRegistry::new();
    let subject = String::from("alice@x.com");
    let old = reg.create(&subject, NOW);
    let (subj1, fresh) = reg.rotate(&old, NOW).expect("rotation should succeed");
    assert_eq!(subj1, subject);
    // the replacement rotates successfully, exactly once
    let (subj2, fresh2) = reg.rotate(&fresh, NOW).expect("rotating the replacement should succeed");
    assert_eq!(subj2, subject);
    assert_eq!(reg.rotate(&fresh, NOW), None);
    assert!(reg.contains(&fresh2));
}

#[test]
fn rotate_unknown_token_fails_and_changes_nothing() {
    let mut reg = RefreshTokenRegistry::new();
    let subject = String::from("alice@x.com");
    let t = reg.create(&subject, NOW);
    assert_eq!(reg.rotate(&String::from("bogus"), NOW), None);
    assert!(reg.contains(&t));
}

#[test]
fn registry_separates_subjects() {
    let mut reg = RefreshTokenRegistry::new();
    let alice = String::from("alice@x.com");
    let bob = String::from("bob@x.com");
    let ta = reg.create(&alice, NOW);
    let tb = reg.create(&bob, NOW);
    assert_eq!(reg.consume(&ta, NOW), Some(alice));
    assert_eq!(reg.consume(&tb, NOW), Some(bob));
}

#[test]
fn expired_token_cannot_be_consumed() {
    let mut reg = RefreshTokenRegistry::new();
    let subject = String::from("alice@x.com");
    let t = reg.create(&subject, NOW);
    // one second before expiry the token is still live
    let mut live = RefreshTokenRegistry::new();
    let t_live = live.create(&subject, NOW);
    assert_eq!(live.consume(&t_live, NOW + REFRESH_TOKEN_TTL_SECS - 1), Some(subject.clone()));
    // at its expiry the token is as good as consumed, and the entry is dropped
    assert_eq!(reg.consume(&t, NOW + REFRESH_TOKEN_TTL_SECS), None);
    assert!(!reg.contains(&t));
}

#[test]
fn expired_token_cannot_be_rotated() {
    let mut reg = RefreshTokenRegistry::new();
    let subject = String::from("alice@x.com");
    let t = reg.create(&subject, NOW);
    assert_eq!(reg.rotate(&t, NOW + REFRESH_TOKEN_TTL_SECS), None);
    assert!(!reg.contains(&t));
}
