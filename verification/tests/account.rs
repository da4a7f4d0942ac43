use quantumix_core::{
    find_account, login, register, session, AccountStore, QuantumixException, SessionStore,
    DEFAULT_PERMISSION, SEQUENCE_MAX, SEQUENCE_MIN,
};

#[test]
fn registration_succeeds_and_assigns_a_four_digit_sequence() {
    let mut accounts = AccountStore::new();
    let account = register("alice", "alice@tuta.com", "pw", "Al", &mut accounts).unwrap();
    assert!((SEQUENCE_MIN..=SEQUENCE_MAX).contains(&account.sequence));
    assert_eq!(account.username, "alice");
    assert_eq!(account.tuta_mail, "alice@tuta.com");
    assert_eq!(account.nickname, "Al");
    assert_eq!(account.permission, DEFAULT_PERMISSION);
    assert_eq!(account.id, 1);
    assert_ne!(account.password, "pw");
    assert_eq!(accounts.len(), 1);
}

#[test]
fn registering_the_same_triple_again_is_a_conflict() {
    let mut accounts = AccountStore::new();
    register("alice", "alice@tuta.com", "pw", "Al", &mut accounts).unwrap();
    let err = register("alice", "alice@tuta.com", "other", "Al", &mut accounts).unwrap_err();
    assert!(matches!(err, QuantumixException::ColumnExists { .. }));
    assert_eq!(accounts.len(), 1);
}

#[test]
fn same_username_with_different_mail_and_nickname_registers_fine() {
    let mut accounts = AccountStore::new();
    register("alice", "alice@tuta.com", "pw", "Al", &mut accounts).unwrap();
    let second = register("alice", "alice2@tuta.com", "pw", "Alfa", &mut accounts).unwrap();
    assert_eq!(second.id, 2);
    assert_eq!(accounts.len(), 2);
}

#[test]
fn registration_rejects_an_unaccepted_mail_address() {
    let mut accounts = AccountStore::new();
    let err = register("bob", "bob@gmail.com", "pw", "Bob", &mut accounts).unwrap_err();
    assert!(matches!(err, QuantumixException::InvalidEmail { .. }));
    assert_eq!(accounts.len(), 0);
}

#[test]
fn login_with_wrong_password_fails_then_succeeds_with_the_right_one() {
    let mut accounts = AccountStore::new();
    let mut sessions = SessionStore::new();
    register("alice", "alice@tuta.com", "pw", "Al", &mut accounts).unwrap();

    let err = login("alice", "wrongpw", "laptop", 0, &accounts, &mut sessions).unwrap_err();
    assert!(matches!(err, QuantumixException::AuthenticationFailed { .. }));
    assert_eq!(sessions.len(), 0);

    let token = login("alice", "pw", "laptop", 0, &accounts, &mut sessions).unwrap();
    assert!(session(&token, 0, &sessions));
}

#[test]
fn login_resolves_mail_and_sequence_identities_too() {
    let mut accounts = AccountStore::new();
    let mut sessions = SessionStore::new();
    let account = register("alice", "alice@tuta.com", "pw", "Al", &mut accounts).unwrap();

    let by_mail = login("alice@tuta.com", "pw", "laptop", 0, &accounts, &mut sessions).unwrap();
    let by_sequence = login(
        &format!("{}", account.sequence),
        "pw",
        "laptop",
        0,
        &accounts,
        &mut sessions,
    )
    .unwrap();
    assert_eq!(by_mail, by_sequence);
    assert_eq!(sessions.len(), 1);
}

#[test]
fn login_with_unknown_identity_reports_not_found() {
    let accounts = AccountStore::new();
    let mut sessions = SessionStore::new();
    let err = login("nobody", "pw", "laptop", 0, &accounts, &mut sessions).unwrap_err();
    match err {
        QuantumixException::ColumnNotFound { table, field, data } => {
            assert_eq!(table, "account");
            assert_eq!(field, "identity");
            assert_eq!(data, "nobody");
        },
        other => panic!("expected ColumnNotFound, got {:?}", other),
    }
}

#[test]
fn repeated_login_reuses_the_session_token() {
    let mut accounts = AccountStore::new();
    let mut sessions = SessionStore::new();
    register("alice", "alice@tuta.com", "pw", "Al", &mut accounts).unwrap();
    let first = login("alice", "pw", "laptop", 0, &accounts, &mut sessions).unwrap();
    let second = login("alice", "pw", "laptop", 0, &accounts, &mut sessions).unwrap();
    assert_eq!(first, second);
    assert_eq!(sessions.len(), 1);
}

#[test]
fn find_account_by_primary_key() {
    let mut accounts = AccountStore::new();
    let created = register("alice", "alice@tuta.com", "pw", "Al", &mut accounts).unwrap();
    let found = find_account(created.id, &accounts).unwrap();
    assert_eq!(found.username, "alice");
    assert_eq!(found.id, created.id);
    let err = find_account(99, &accounts).unwrap_err();
    match err {
        QuantumixException::ColumnNotFound { table, field, data } => {
            assert_eq!(table, "account");
            assert_eq!(field, "id");
            assert_eq!(data, "99");
        },
        other => panic!("expected ColumnNotFound, got {:?}", other),
    }
}

#[test]
fn find_account_renders_a_negative_id_in_its_error() {
    let accounts = AccountStore::new();
    let err = find_account(-5, &accounts).unwrap_err();
    match err {
        QuantumixException::ColumnNotFound { table, field, data } => {
            assert_eq!(table, "account");
            assert_eq!(field, "id");
            assert_eq!(data, "-5");
        },
        other => panic!("expected ColumnNotFound, got {:?}", other),
    }
}

#[test]
fn distinct_registrations_get_distinct_sequences() {
    let mut accounts = AccountStore::new();
    let a = register("a", "a@tuta.com", "pw", "A", &mut accounts).unwrap();
    let b = register("b", "b@tuta.com", "pw", "B", &mut accounts).unwrap();
    let c = register("c", "c@tuta.com", "pw", "C", &mut accounts).unwrap();
    assert_ne!(a.sequence, b.sequence);
    assert_ne!(a.sequence, c.sequence);
    assert_ne!(b.sequence, c.sequence);
}
