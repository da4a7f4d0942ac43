use quantumix_core::{authorize, determine_permission};

#[test]
fn resolve_without_request_is_the_actor_tier() {
    assert_eq!(determine_permission(0, None), 0);
    assert_eq!(determine_permission(1, None), 1);
    assert_eq!(determine_permission(5, None), 5);
    assert_eq!(determine_permission(-3, None), -3);
}

#[test]
fn resolve_never_grants_more_privilege_than_the_actor_has() {
    assert_eq!(determine_permission(3, Some(1)), 3);
    assert_eq!(determine_permission(1, Some(3)), 3);
    assert_eq!(determine_permission(2, Some(2)), 2);
    assert_eq!(determine_permission(0, Some(5)), 5);
    assert_eq!(determine_permission(5, Some(0)), 5);
}

#[test]
fn resource_with_required_tier_gates_by_effective_tier() {
    assert!(authorize(1, None, Some(2)));
    assert!(!authorize(5, None, Some(2)));
    assert!(authorize(2, Some(2), Some(2)));
    assert!(!authorize(3, Some(1), Some(2)));
}

#[test]
fn resource_without_required_tier_is_open_to_everyone() {
    assert!(authorize(5, None, None));
    assert!(authorize(0, Some(9), None));
}
