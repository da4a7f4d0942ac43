//! Error taxonomy of the authentication core.

use vstd::prelude::*;

verus! {

/// Declares argon2's error type so a hashing failure can carry its cause
/// unchanged instead of stringifying it early.
#[verifier::external_type_specification]
#[verifier::external_body]
pub struct ExPasswordHashError(argon2::password_hash::Error);

/// The closed set of failures the core reports.
///
/// A storage lookup that misses becomes `ColumnNotFound`; a record that
/// would duplicate a constrained column becomes `ColumnExists`; a failure
/// of the hashing algorithm itself is `PasswordHashFailed`, wrapping the
/// algorithm's own error; a wrong password at login is
/// `AuthenticationFailed`; a mail address outside the accepted form or
/// domains is `InvalidEmail`; and a sequence allocation that finds every
/// value of the range taken is `AllocationExhausted`.
#[derive(Debug)]
pub enum QuantumixException {
    ColumnNotFound { table: String, field: String, data: String },
    ColumnExists { feature: String },
    PasswordHashFailed { error: argon2::password_hash::Error },
    AuthenticationFailed { sequence: i32, password: String },
    InvalidEmail { email: String },
    AllocationExhausted,
}

} // verus!
