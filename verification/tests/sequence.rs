use quantumix_core::{generate_sequence, AccountStore, QuantumixException, SEQUENCE_MAX, SEQUENCE_MIN};

#[test]
fn allocation_stays_in_range_and_avoids_taken_values() {
    let mut accounts = AccountStore::new();
    for k in 0..50 {
        let seq = SEQUENCE_MIN + k;
        let name = format!("user{}", k);
        let mail = format!("user{}@tuta.com", k);
        accounts
            .insert_account(seq, &name, &mail, "hash", "nick")
            .unwrap();
    }
    for _ in 0..200 {
        let n = generate_sequence(&accounts).unwrap();
        assert!((SEQUENCE_MIN..=SEQUENCE_MAX).contains(&n));
        assert!(!accounts.exists_sequence(n));
    }
}

#[test]
fn allocation_with_one_free_value_returns_it() {
    let mut accounts = AccountStore::new();
    let free = 5555;
    for seq in SEQUENCE_MIN..=SEQUENCE_MAX {
        if seq != free {
            accounts
                .insert_account(seq, "u", "u@tuta.com", "hash", "nick")
                .unwrap();
        }
    }
    assert_eq!(generate_sequence(&accounts).unwrap(), free);
}

#[test]
fn allocation_with_no_free_value_is_exhausted() {
    let mut accounts = AccountStore::new();
    for seq in SEQUENCE_MIN..=SEQUENCE_MAX {
        accounts
            .insert_account(seq, "u", "u@tuta.com", "hash", "nick")
            .unwrap();
    }
    let err = generate_sequence(&accounts).unwrap_err();
    assert!(matches!(err, QuantumixException::AllocationExhausted));
}

#[test]
fn insert_rejects_a_taken_sequence() {
    let mut accounts = AccountStore::new();
    accounts
        .insert_account(4242, "a", "a@tuta.com", "hash", "A")
        .unwrap();
    let err = accounts
        .insert_account(4242, "b", "b@tuta.com", "hash", "B")
        .unwrap_err();
    assert!(matches!(err, QuantumixException::ColumnExists { .. }));
}
