//! Credential hashing and verification.
//!
//! Hashing derives a salted, memory-hard, one-way hash of a plaintext and
//! returns it as a self-describing PHC string; verification recomputes the
//! hash from the parameters and salt embedded in that string and compares
//! in constant time. Both lean on the argon2 crate; what verification
//! answers for a given plaintext and PHC string is a fixed function of the
//! two, named here by `argon2_verifies`.

use vstd::prelude::*;
use vstd::string::StringSliceAdditionalSpecFns;

use argon2::password_hash::{rand_core::OsRng, PasswordHash, PasswordHasher, PasswordVerifier, SaltString};
use argon2::Argon2;

use crate::exceptions::QuantumixException;

verus! {

/// Whether argon2's verification accepts `password` against the PHC string
/// `password_hash`: false whenever the string is malformed, true exactly on
/// a recomputed match.
pub uninterp spec fn argon2_verifies(password: Seq<char>, password_hash: Seq<char>) -> bool;

/// Whether a plaintext is within argon2's input cap of 2^32 - 1 bytes.
/// Hashing is owed success for every such plaintext: with a freshly
/// generated salt and the default parameters, the password's byte length
/// is the one input-dependent condition argon2 checks.
pub open spec fn within_hash_cap(password: &str) -> bool {
    password.spec_bytes().len() <= 0xFFFF_FFFF
}

/// Relies on argon2's `SaltString::generate` and `Argon2::hash_password`:
/// on success the PHC string it returns verifies against the same password
/// (the crate's documented round trip), and the call fails only when the
/// password exceeds the algorithm's cap of 2^32 - 1 bytes — the generated
/// salt always decodes and lies within bounds, and the default parameters
/// and output length always encode. The salt is drawn fresh, so nothing
/// further is promised of the string itself.
#[verifier::external_body]
fn argon2_hash(password: &str) -> (r: Result<String, argon2::password_hash::Error>)
    ensures
        r matches Ok(h) ==> argon2_verifies(password@, h@),
        within_hash_cap(password) ==> r is Ok,
{
    let salt = SaltString::generate(&mut OsRng);
    match Argon2::default().hash_password(password.as_bytes(), &salt) {
        Ok(hash) => Ok(hash.to_string()),
        Err(error) => Err(error),
    }
}

/// Relies on argon2's `PasswordHash::new` and `Argon2::verify_password`:
/// the answer depends on the password and the PHC string alone — a string
/// that does not parse verifies nothing, and a parsed one is checked by
/// recomputation and constant-time comparison.
#[verifier::external_body]
pub fn verify_password(password: &str, password_hash: &str) -> (r: bool)
    ensures
        r == argon2_verifies(password@, password_hash@),
{
    let parsed_hash = match PasswordHash::new(password_hash) {
        Ok(parsed) => parsed,
        Err(_) => return false,
    };
    Argon2::default()
        .verify_password(password.as_bytes(), &parsed_hash)
        .is_ok()
}

/// Hashes a plaintext with a fresh random salt. Succeeds for every
/// plaintext within the algorithm's byte cap — in particular it never
/// fails merely because of a non-empty plaintext — and wraps the
/// algorithm's own failure otherwise; on success the returned string
/// verifies against the plaintext it was derived from.
pub fn hash_password(password: &str) -> (r: Result<String, QuantumixException>)
    ensures
        r matches Ok(h) ==> argon2_verifies(password@, h@),
        r matches Err(e) ==> e is PasswordHashFailed,
        within_hash_cap(password) ==> r is Ok,
{
    match argon2_hash(password) {
        Ok(hash) => Ok(hash),
        Err(error) => Err(QuantumixException::PasswordHashFailed { error }),
    }
}

} // verus!
