//! Permission-tier resolution.
//!
//! Tiers are a total order of integers in which `0` is the highest privilege
//! and larger values are less privileged. An actor may supply an explicit
//! tier with a request; the effective tier is never allowed to become more
//! privileged than what the actor's account already grants.

use vstd::prelude::*;

verus! {

/// The effective tier applied to an action: the actor's own tier when no
/// explicit tier was requested, otherwise the less privileged (larger) of
/// the two, so a request parameter can tighten but never loosen the actor's
/// privilege floor.
pub open spec fn effective_permission(account_permission: int, data_permission: Option<int>) -> int {
    match data_permission {
        None => account_permission,
        Some(p) => {
            if account_permission > p {
                account_permission
            } else {
                p
            }
        },
    }
}

/// Resolves the tier to apply when `account_permission` is the actor's own
/// tier and `data_permission` is the tier named in the request, if any.
pub fn determine_permission(account_permission: i32, data_permission: Option<i32>) -> (r: i32)
    ensures
        r == effective_permission(
            account_permission as int,
            match data_permission {
                None => None::<int>,
                Some(p) => Some(p as int),
            },
        ),
{
    match data_permission {
        None => account_permission,
        Some(permission) => {
            if account_permission > permission {
                account_permission
            } else {
                permission
            }
        },
    }
}

/// Whether an action on a resource that requires `resource_permission` is
/// permitted for an actor of tier `account_permission` requesting
/// `data_permission`: a resource without a required tier is open, and
/// otherwise the effective tier must be at least as privileged as required.
pub fn authorize(
    account_permission: i32,
    data_permission: Option<i32>,
    resource_permission: Option<i32>,
) -> (r: bool)
    ensures
        r == match resource_permission {
            None => true,
            Some(required) => effective_permission(
                account_permission as int,
                match data_permission {
                    None => None::<int>,
                    Some(p) => Some(p as int),
                },
            ) <= required,
        },
{
    match resource_permission {
        None => true,
        Some(required) => determine_permission(account_permission, data_permission) <= required,
    }
}

} // verus!
