use quantumix_core::{hash_password, verify_password};

#[test]
fn hash_then_verify_roundtrip() {
    let hash = hash_password("hunter42").unwrap();
    assert!(verify_password("hunter42", &hash));
    assert!(!verify_password("hunter43", &hash));
    assert!(!verify_password("", &hash));
}

#[test]
fn hash_is_not_the_plaintext() {
    let hash = hash_password("hunter42").unwrap();
    assert_ne!(hash, "hunter42");
    assert!(hash.starts_with("$argon2"));
}

#[test]
fn hashing_twice_salts_differently_yet_both_verify() {
    let first = hash_password("same-plaintext").unwrap();
    let second = hash_password("same-plaintext").unwrap();
    assert_ne!(first, second);
    assert!(verify_password("same-plaintext", &first));
    assert!(verify_password("same-plaintext", &second));
}

#[test]
fn verify_rejects_malformed_hash() {
    assert!(!verify_password("pw", "pw"));
    assert!(!verify_password("pw", ""));
    assert!(!verify_password("pw", "$argon2id$not-a-real-hash"));
}

#[test]
fn empty_plaintext_hashes_and_verifies() {
    let hash = hash_password("").unwrap();
    assert!(verify_password("", &hash));
    assert!(!verify_password("x", &hash));
}
