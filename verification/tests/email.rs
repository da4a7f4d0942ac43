use quantumix_core::is_valid_email;

#[test]
fn accepted_domains_pass() {
    assert!(is_valid_email("alice@tuta.com"));
    assert!(is_valid_email("alice@tutanota.com"));
    assert!(is_valid_email("alice.smith+tag_1%x-y@tuta.com"));
    assert!(is_valid_email("0@tuta.com"));
}

#[test]
fn other_domains_are_rejected() {
    assert!(!is_valid_email("alice@gmail.com"));
    assert!(!is_valid_email("alice@tuta.org"));
    assert!(!is_valid_email("alice@tuta.com.evil.net"));
    assert!(!is_valid_email("alice@TUTA.com"));
}

#[test]
fn malformed_addresses_are_rejected() {
    assert!(!is_valid_email(""));
    assert!(!is_valid_email("alice"));
    assert!(!is_valid_email("@tuta.com"));
    assert!(!is_valid_email("alice@"));
    assert!(!is_valid_email("a b@tuta.com"));
    assert!(!is_valid_email("a@b@tuta.com"));
}

#[test]
fn non_ascii_local_parts_are_rejected() {
    assert!(!is_valid_email("алиса@tuta.com"));
    assert!(!is_valid_email("ali\u{00e7}e@tuta.com"));
}
