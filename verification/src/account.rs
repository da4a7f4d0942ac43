//! Registration and login.
//!
//! Registration checks the mail address, rejects an account that would
//! duplicate an existing username + mail + nickname triple — the triple,
//! not any single field, is the collision rule — hashes the password,
//! allocates a fresh sequence and persists the account. Login resolves an
//! identity against username, mail or sequence, verifies the password, and
//! hands the session work to [`crate::session::create_or_rotate`].

use vstd::prelude::*;

use crate::email::{is_valid_email, is_valid_email_seq};
use crate::exceptions::QuantumixException;
use crate::model::{Account, DEFAULT_PERMISSION};
use crate::password::{argon2_verifies, hash_password, verify_password, within_hash_cap};
use crate::sequence::{decimal_repr_i64, decimal_string_i64, generate_sequence, SEQUENCE_MAX, SEQUENCE_MIN};
use crate::session::{create_or_rotate, create_or_rotate_post, SESSION_VALIDITY_SECS};
use crate::store::{
    first_identity_match, has_identity_match, sequence_taken, triple_conflict, AccountStore,
    SessionStore,
};

verus! {

/// Looks an account up by its primary key; a miss is a `ColumnNotFound`.
pub fn find_account(id: i64, accounts: &AccountStore) -> (r: Result<Account, QuantumixException>)
    requires
        accounts.wf(),
    ensures
        match r {
            Ok(a) => {
                &&& a@.id == id
                &&& exists|i: int| 0 <= i < accounts@.len() && #[trigger] accounts@[i] == a@
                &&& forall|i: int|
                    0 <= i < accounts@.len() && (#[trigger] accounts@[i]).id == id
                        ==> accounts@[i] == a@
            },
            Err(e) => {
                &&& e matches QuantumixException::ColumnNotFound { table, field, data }
                    && table@ == "account"@ && field@ == "id"@ && data@ == decimal_repr_i64(
                    id as int,
                )
                &&& forall|i: int| 0 <= i < accounts@.len() ==> (#[trigger] accounts@[i]).id != id
            },
        },
{
    match accounts.find_by_id(id) {
        Some(account) => Ok(account.clone()),
        None => Err(
            QuantumixException::ColumnNotFound {
                table: "account".to_owned(),
                field: "id".to_owned(),
                data: decimal_string_i64(id),
            },
        ),
    }
}

/// Registers a new account and returns the stored record.
///
/// The checks run in order: mail address first, then the triple collision
/// rule, then hashing, then sequence allocation; the store grows exactly
/// when the result is the new account, and any error leaves it unchanged.
/// A valid registration with a free sequence and a password within
/// argon2's byte cap always succeeds.
pub fn register(
    username: &str,
    tuta_mail: &str,
    password: &str,
    nickname: &str,
    accounts: &mut AccountStore,
) -> (r: Result<Account, QuantumixException>)
    requires
        old(accounts).wf(),
        old(accounts)@.len() < i64::MAX,
    ensures
        final(accounts).wf(),
        r is Err ==> final(accounts)@ == old(accounts)@,
        (r matches Err(e) && e is InvalidEmail) <==> !is_valid_email_seq(tuta_mail@),
        r matches Err(e) ==> (e matches QuantumixException::InvalidEmail { email } ==> email@
            == tuta_mail@),
        (r matches Err(e) && e is ColumnExists) <==> (is_valid_email_seq(tuta_mail@)
            && triple_conflict(old(accounts)@, username@, tuta_mail@, nickname@)),
        r matches Err(e) && e is PasswordHashFailed ==> is_valid_email_seq(tuta_mail@)
            && !triple_conflict(old(accounts)@, username@, tuta_mail@, nickname@),
        (r matches Err(e) && e is AllocationExhausted) ==> (is_valid_email_seq(tuta_mail@)
            && !triple_conflict(old(accounts)@, username@, tuta_mail@, nickname@) && (forall|m: int|
            SEQUENCE_MIN <= m <= SEQUENCE_MAX ==> sequence_taken(old(accounts)@, m))),
        within_hash_cap(password) ==> !(r matches Err(e) && e is PasswordHashFailed),
        is_valid_email_seq(tuta_mail@) && !triple_conflict(
            old(accounts)@,
            username@,
            tuta_mail@,
            nickname@,
        ) && (exists|m: int| SEQUENCE_MIN <= m <= SEQUENCE_MAX && !sequence_taken(old(accounts)@, m))
            ==> (r is Ok || (r matches Err(e) && e is PasswordHashFailed)),
        is_valid_email_seq(tuta_mail@) && !triple_conflict(
            old(accounts)@,
            username@,
            tuta_mail@,
            nickname@,
        ) && (exists|m: int| SEQUENCE_MIN <= m <= SEQUENCE_MAX && !sequence_taken(old(accounts)@, m))
            && within_hash_cap(password) ==> r is Ok,
        r matches Ok(a) ==> {
            &&& is_valid_email_seq(tuta_mail@)
            &&& !triple_conflict(old(accounts)@, username@, tuta_mail@, nickname@)
            &&& a@.id == old(accounts)@.len() + 1 as int
            &&& a@.username == username@
            &&& a@.tuta_mail == tuta_mail@
            &&& a@.nickname == nickname@
            &&& a@.permission == DEFAULT_PERMISSION as int
            &&& SEQUENCE_MIN <= a@.sequence <= SEQUENCE_MAX
            &&& !sequence_taken(old(accounts)@, a@.sequence)
            &&& argon2_verifies(password@, a@.password)
            &&& final(accounts)@ == old(accounts)@.push(a@)
        },
        r matches Err(e) ==> (e is InvalidEmail || e is ColumnExists || e is PasswordHashFailed
            || e is AllocationExhausted),
{
    if !is_valid_email(tuta_mail) {
        return Err(QuantumixException::InvalidEmail { email: tuta_mail.to_owned() });
    }
    if accounts.has_triple_conflict(username, tuta_mail, nickname) {
        return Err(QuantumixException::ColumnExists { feature: "account".to_owned() });
    }
    let hashed = match hash_password(password) {
        Ok(h) => h,
        Err(e) => {
            return Err(e);
        },
    };
    let sequence = match generate_sequence(accounts) {
        Ok(n) => n,
        Err(e) => {
            return Err(e);
        },
    };
    match accounts.insert_account(sequence, username, tuta_mail, hashed.as_str(), nickname) {
        Ok(account) => Ok(account),
        Err(e) => Err(e),
    }
}

/// Authenticates an identity with a password for one device and returns a
/// session token.
///
/// The identity resolves to the first account whose username, mail address
/// or sequence spells it; an unknown identity is `ColumnNotFound`, a
/// password the stored hash does not verify is `AuthenticationFailed`, and
/// otherwise the result and the session store change exactly as
/// [`create_or_rotate_post`] describes for that account.
pub fn login(
    identity: &str,
    password: &str,
    unique_id: &str,
    now: i64,
    accounts: &AccountStore,
    sessions: &mut SessionStore,
) -> (r: Result<String, QuantumixException>)
    requires
        old(sessions).wf(),
        now <= i64::MAX - SESSION_VALIDITY_SECS,
        old(sessions)@.next_id < i64::MAX,
    ensures
        final(sessions).wf(),
        within_hash_cap(unique_id) ==> !(r matches Err(e) && e is PasswordHashFailed),
        !has_identity_match(accounts@, identity@) ==> {
            &&& final(sessions)@ == old(sessions)@
            &&& r matches Err(e) && (e matches QuantumixException::ColumnNotFound {
                table,
                field,
                data,
            } && table@ == "account"@ && field@ == "identity"@ && data@ == identity@)
        },
        has_identity_match(accounts@, identity@) ==> {
            let a = accounts@[first_identity_match(accounts@, identity@)];
            if !argon2_verifies(password@, a.password) {
                &&& final(sessions)@ == old(sessions)@
                &&& r matches Err(e) && (e matches QuantumixException::AuthenticationFailed {
                    sequence,
                    password: attempted,
                } && sequence as int == a.sequence && attempted@ == password@)
            } else {
                create_or_rotate_post(
                    old(sessions)@,
                    final(sessions)@,
                    a.id,
                    unique_id@,
                    now as int,
                    r,
                )
            }
        },
{
    let account = match accounts.find_by_identity(identity) {
        Some(a) => a,
        None => {
            return Err(
                QuantumixException::ColumnNotFound {
                    table: "account".to_owned(),
                    field: "identity".to_owned(),
                    data: identity.to_owned(),
                },
            );
        },
    };
    if !verify_password(password, account.password.as_str()) {
        return Err(
            QuantumixException::AuthenticationFailed {
                sequence: account.sequence,
                password: password.to_owned(),
            },
        );
    }
    create_or_rotate(sessions, account.id, unique_id, now)
}

} // verus!
