use quantumix_core::{
    create_or_rotate, session, validate_and_return_session, SessionStore, SESSION_VALIDITY_SECS,
};

#[test]
fn immediate_repeat_login_returns_the_same_token() {
    let mut sessions = SessionStore::new();
    let first = create_or_rotate(&mut sessions, 1, "laptop", 100).unwrap();
    let second = create_or_rotate(&mut sessions, 1, "laptop", 100).unwrap();
    assert_eq!(first, second);
    assert_eq!(sessions.len(), 1);
}

#[test]
fn rotation_after_expiry_issues_a_new_token_and_kills_the_old_one() {
    let mut sessions = SessionStore::new();
    let old_token = create_or_rotate(&mut sessions, 1, "laptop", 0).unwrap();
    let later = SESSION_VALIDITY_SECS + 1;
    let new_token = create_or_rotate(&mut sessions, 1, "laptop", later).unwrap();
    assert_ne!(old_token, new_token);
    assert_eq!(sessions.len(), 1);
    assert!(session(&new_token, later, &sessions));
    assert!(!session(&old_token, later, &sessions));
    assert!(!session(&old_token, 0, &sessions));
}

#[test]
fn distinct_devices_get_distinct_sessions() {
    let mut sessions = SessionStore::new();
    let laptop = create_or_rotate(&mut sessions, 1, "laptop", 0).unwrap();
    let phone = create_or_rotate(&mut sessions, 1, "phone", 0).unwrap();
    let other = create_or_rotate(&mut sessions, 2, "laptop", 0).unwrap();
    assert_ne!(laptop, phone);
    assert_ne!(laptop, other);
    assert_eq!(sessions.len(), 3);
    assert!(session(&laptop, 10, &sessions));
    assert!(session(&phone, 10, &sessions));
    assert!(session(&other, 10, &sessions));
}

#[test]
fn expired_token_fails_validation_but_survives_without_cleanup() {
    let mut sessions = SessionStore::new();
    let token = create_or_rotate(&mut sessions, 7, "tablet", 0).unwrap();
    assert!(session(&token, SESSION_VALIDITY_SECS, &sessions));
    assert!(!session(&token, SESSION_VALIDITY_SECS + 1, &sessions));
    let read = validate_and_return_session(&mut sessions, &token, false, SESSION_VALIDITY_SECS + 1);
    assert!(read.is_none());
    assert_eq!(sessions.len(), 1);
}

#[test]
fn cleanup_deletes_an_expired_session() {
    let mut sessions = SessionStore::new();
    let token = create_or_rotate(&mut sessions, 7, "tablet", 0).unwrap();
    let read = validate_and_return_session(&mut sessions, &token, true, SESSION_VALIDITY_SECS + 1);
    assert!(read.is_none());
    assert_eq!(sessions.len(), 0);
    assert!(!session(&token, 0, &sessions));
}

#[test]
fn live_session_is_returned_untouched() {
    let mut sessions = SessionStore::new();
    let token = create_or_rotate(&mut sessions, 7, "tablet", 50).unwrap();
    let read = validate_and_return_session(&mut sessions, &token, true, 60).unwrap();
    assert_eq!(read.session_key, token);
    assert_eq!(read.user_id, 7);
    assert_eq!(read.unique_id, "tablet");
    assert_eq!(read.expire_time, 50 + SESSION_VALIDITY_SECS);
    assert_eq!(sessions.len(), 1);
}

#[test]
fn unknown_token_validates_to_nothing() {
    let mut sessions = SessionStore::new();
    assert!(!session("no-such-token", 0, &sessions));
    assert!(validate_and_return_session(&mut sessions, "no-such-token", true, 0).is_none());
}
