//! The records of the core — accounts and sessions — as the persistence
//! collaborator keeps them, with mathematical views for the contracts.

use vstd::prelude::*;

verus! {

/// Tier a new account starts with: the least privileged level.
pub const DEFAULT_PERMISSION: i32 = 5;

/// An identity record.
///
/// `sequence` is the public 4-digit identifier, distinct from the storage
/// primary key `id`; `password` holds the PHC-encoded credential hash,
/// never the plaintext; `permission` is the account's tier, smaller being
/// more privileged.
#[derive(Debug)]
pub struct Account {
    pub id: i64,
    pub sequence: i32,
    pub username: String,
    pub tuta_mail: String,
    pub password: String,
    pub nickname: String,
    pub permission: i32,
}

/// The mathematical image of an [`Account`].
#[verifier::ext_equal]
pub ghost struct AccountView {
    pub id: int,
    pub sequence: int,
    pub username: Seq<char>,
    pub tuta_mail: Seq<char>,
    pub password: Seq<char>,
    pub nickname: Seq<char>,
    pub permission: int,
}

impl View for Account {
    type V = AccountView;

    open spec fn view(&self) -> AccountView {
        AccountView {
            id: self.id as int,
            sequence: self.sequence as int,
            username: self.username@,
            tuta_mail: self.tuta_mail@,
            password: self.password@,
            nickname: self.nickname@,
            permission: self.permission as int,
        }
    }
}

impl Clone for Account {
    fn clone(&self) -> (r: Self)
        ensures
            r@ == self@,
    {
        Account {
            id: self.id,
            sequence: self.sequence,
            username: self.username.clone(),
            tuta_mail: self.tuta_mail.clone(),
            password: self.password.clone(),
            nickname: self.nickname.clone(),
            permission: self.permission,
        }
    }
}

/// Proof of one successful authentication of one account on one device.
///
/// `session_key` is the opaque token handed to the client; `unique_id` is
/// the device identifier the client supplied; `expire_time` is a timestamp
/// in seconds, on the same clock that callers inject into the core.
#[derive(Debug)]
pub struct Session {
    pub id: i64,
    pub session_key: String,
    pub user_id: i64,
    pub unique_id: String,
    pub expire_time: i64,
}

/// The mathematical image of a [`Session`].
#[verifier::ext_equal]
pub ghost struct SessionView {
    pub id: int,
    pub session_key: Seq<char>,
    pub user_id: int,
    pub unique_id: Seq<char>,
    pub expire_time: int,
}

impl View for Session {
    type V = SessionView;

    open spec fn view(&self) -> SessionView {
        SessionView {
            id: self.id as int,
            session_key: self.session_key@,
            user_id: self.user_id as int,
            unique_id: self.unique_id@,
            expire_time: self.expire_time as int,
        }
    }
}

impl Clone for Session {
    fn clone(&self) -> (r: Self)
        ensures
            r@ == self@,
    {
        Session {
            id: self.id,
            session_key: self.session_key.clone(),
            user_id: self.user_id,
            unique_id: self.unique_id.clone(),
            expire_time: self.expire_time,
        }
    }
}

} // verus!
