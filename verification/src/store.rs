//! In-memory model of the persistence collaborator.
//!
//! The backing store assigns primary keys and enforces the uniqueness
//! constraints the schema declares; these stores model exactly that, so
//! the core's contracts can say which records an operation reads, writes
//! and removes. Accounts are never deleted by the core, so their primary
//! keys run 1, 2, 3, … in insertion order; sessions can be deleted, so
//! their store carries an auto-increment counter of its own.

use vstd::prelude::*;

use crate::exceptions::QuantumixException;
use crate::model::{Account, AccountView, Session, SessionView, DEFAULT_PERMISSION};
use crate::sequence::{is_sequence_repr, matches_sequence};

verus! {

/// Whether some stored account already uses the sequence `n`.
pub open spec fn sequence_taken(accounts: Seq<AccountView>, n: int) -> bool {
    exists|i: int| 0 <= i < accounts.len() && (#[trigger] accounts[i]).sequence == n
}

/// Whether the text `identity` names the account `a`: its username, its
/// mail address, or the decimal form of its sequence.
pub open spec fn identity_matches(a: AccountView, identity: Seq<char>) -> bool {
    ||| a.username == identity
    ||| a.tuta_mail == identity
    ||| is_sequence_repr(identity, a.sequence)
}

/// Whether `identity` names any stored account.
pub open spec fn has_identity_match(accounts: Seq<AccountView>, identity: Seq<char>) -> bool {
    exists|i: int| 0 <= i < accounts.len() && identity_matches(#[trigger] accounts[i], identity)
}

/// The position of the first stored account that `identity` names.
pub open spec fn first_identity_match(accounts: Seq<AccountView>, identity: Seq<char>) -> int {
    choose|i: int|
        0 <= i < accounts.len() && identity_matches(#[trigger] accounts[i], identity)
            && (forall|j: int| 0 <= j < i ==> !identity_matches(#[trigger] accounts[j], identity))
}

/// Whether an account with this username, mail address and nickname — all
/// three at once — is already stored. This triple, not any single field,
/// is what registration treats as a conflict.
pub open spec fn triple_conflict(
    accounts: Seq<AccountView>,
    username: Seq<char>,
    tuta_mail: Seq<char>,
    nickname: Seq<char>,
) -> bool {
    exists|i: int|
        0 <= i < accounts.len() && (#[trigger] accounts[i]).username == username
            && accounts[i].tuta_mail == tuta_mail && accounts[i].nickname == nickname
}

/// The account records, in insertion order.
pub struct AccountStore {
    accounts: Vec<Account>,
}

impl View for AccountStore {
    type V = Seq<AccountView>;

    closed spec fn view(&self) -> Seq<AccountView> {
        self.accounts@.map_values(|a: Account| a@)
    }
}

impl AccountStore {
    /// The store's invariant: primary keys are the positions shifted by
    /// one, as an auto-increment key without deletions yields, and the
    /// sequence column is unique.
    pub closed spec fn wf(&self) -> bool {
        &&& forall|i: int| 0 <= i < self@.len() ==> (#[trigger] self@[i]).id == i + 1
        &&& forall|i: int, j: int|
            #![trigger self@[i].sequence, self@[j].sequence]
            0 <= i < j < self@.len() ==> self@[i].sequence != self@[j].sequence
    }

    /// An empty store.
    pub fn new() -> (s: Self)
        ensures
            s.wf(),
            s@ =~= Seq::<AccountView>::empty(),
    {
        AccountStore { accounts: Vec::new() }
    }

    /// How many accounts are stored.
    pub fn len(&self) -> (n: usize)
        ensures
            n == self@.len(),
    {
        self.accounts.len()
    }

    /// The account at a position, oldest first.
    pub fn account_at(&self, i: usize) -> (a: &Account)
        requires
            i < self@.len(),
        ensures
            a@ == self@[i as int],
    {
        &self.accounts[i]
    }

    /// Looks an account up by its primary key.
    pub fn find_by_id(&self, id: i64) -> (r: Option<&Account>)
        requires
            self.wf(),
        ensures
            match r {
                Some(a) => {
                    &&& a@.id == id
                    &&& exists|i: int| 0 <= i < self@.len() && #[trigger] self@[i] == a@
                    &&& forall|i: int|
                        0 <= i < self@.len() && (#[trigger] self@[i]).id == id ==> self@[i] == a@
                },
                None => forall|i: int| 0 <= i < self@.len() ==> (#[trigger] self@[i]).id != id,
            },
    {
        let n = self.accounts.len();
        let mut k: usize = 0;
        while k < n
            invariant
                self.wf(),
                n == self@.len(),
                0 <= k <= n,
                forall|i: int| 0 <= i < k ==> (#[trigger] self@[i]).id != id,
            decreases n - k,
        {
            if self.accounts[k].id == id {
                proof {
                    assert(self@[k as int] == self.accounts@[k as int]@);
                }
                return Some(&self.accounts[k]);
            }
            proof {
                assert(self@[k as int] == self.accounts@[k as int]@);
            }
            k = k + 1;
        }
        None
    }

    /// Whether the sequence `sequence` is already in use.
    pub fn exists_sequence(&self, sequence: i32) -> (r: bool)
        ensures
            r == sequence_taken(self@, sequence as int),
    {
        let n = self.accounts.len();
        let mut k: usize = 0;
        while k < n
            invariant
                n == self@.len(),
                0 <= k <= n,
                forall|i: int| 0 <= i < k ==> (#[trigger] self@[i]).sequence != sequence,
            decreases n - k,
        {
            proof {
                assert(self@[k as int] == self.accounts@[k as int]@);
            }
            if self.accounts[k].sequence == sequence {
                return true;
            }
            k = k + 1;
        }
        false
    }

    /// Resolves a login identity to the first account whose username, mail
    /// address or sequence spells `identity`.
    pub fn find_by_identity(&self, identity: &str) -> (r: Option<&Account>)
        ensures
            match r {
                Some(a) => {
                    &&& has_identity_match(self@, identity@)
                    &&& 0 <= first_identity_match(self@, identity@) < self@.len()
                    &&& a@ == self@[first_identity_match(self@, identity@)]
                },
                None => !has_identity_match(self@, identity@),
            },
    {
        let ident: String = identity.to_owned();
        let n = self.accounts.len();
        let mut k: usize = 0;
        while k < n
            invariant
                ident@ == identity@,
                n == self@.len(),
                0 <= k <= n,
                forall|j: int| 0 <= j < k ==> !identity_matches(#[trigger] self@[j], identity@),
            decreases n - k,
        {
            let a = &self.accounts[k];
            if a.username == ident || a.tuta_mail == ident || matches_sequence(identity, a.sequence) {
                proof {
                    lemma_first_identity_match_is(self@, identity@, k as int);
                }
                return Some(a);
            }
            k = k + 1;
        }
        None
    }

    /// Whether an account with this username, mail address and nickname —
    /// the triple at once — is already stored.
    pub fn has_triple_conflict(
        &self,
        username: &str,
        tuta_mail: &str,
        nickname: &str,
    ) -> (r: bool)
        ensures
            r == triple_conflict(self@, username@, tuta_mail@, nickname@),
    {
        let user: String = username.to_owned();
        let mail: String = tuta_mail.to_owned();
        let nick: String = nickname.to_owned();
        let n = self.accounts.len();
        let mut k: usize = 0;
        while k < n
            invariant
                user@ == username@,
                mail@ == tuta_mail@,
                nick@ == nickname@,
                n == self@.len(),
                0 <= k <= n,
                forall|i: int|
                    0 <= i < k ==> !((#[trigger] self@[i]).username == username@ && self@[i].tuta_mail
                        == tuta_mail@ && self@[i].nickname == nickname@),
            decreases n - k,
        {
            proof {
                assert(self@[k as int] == self.accounts@[k as int]@);
            }
            let a = &self.accounts[k];
            if a.username == user && a.tuta_mail == mail && a.nickname == nick {
                return true;
            }
            k = k + 1;
        }
        false
    }

    /// Inserts a new account, enforcing the store's unique-sequence
    /// constraint and assigning the next primary key; the new account gets
    /// the default, least privileged tier.
    pub fn insert_account(
        &mut self,
        sequence: i32,
        username: &str,
        tuta_mail: &str,
        password: &str,
        nickname: &str,
    ) -> (r: Result<Account, QuantumixException>)
        requires
            old(self).wf(),
            old(self)@.len() < i64::MAX,
        ensures
            final(self).wf(),
            sequence_taken(old(self)@, sequence as int) ==> {
                &&& final(self)@ == old(self)@
                &&& r matches Err(e) && e is ColumnExists
            },
            !sequence_taken(old(self)@, sequence as int) ==> (r matches Ok(a) && {
                &&& a@ == (AccountView {
                    id: old(self)@.len() + 1 as int,
                    sequence: sequence as int,
                    username: username@,
                    tuta_mail: tuta_mail@,
                    password: password@,
                    nickname: nickname@,
                    permission: DEFAULT_PERMISSION as int,
                })
                &&& final(self)@ =~= old(self)@.push(a@)
            }),
    {
        if self.exists_sequence(sequence) {
            return Err(QuantumixException::ColumnExists { feature: "sequence".to_owned() });
        }
        let id = self.accounts.len() as i64 + 1;
        let account = Account {
            id,
            sequence,
            username: username.to_owned(),
            tuta_mail: tuta_mail.to_owned(),
            password: password.to_owned(),
            nickname: nickname.to_owned(),
            permission: DEFAULT_PERMISSION,
        };
        let stored = account.clone();
        self.accounts.push(stored);
        proof {
            assert(self@ =~= old(self)@.push(account@));
        }
        Ok(account)
    }
}

/// Whether some stored session carries the token `session_key`.
pub open spec fn token_present(sessions: Seq<SessionView>, session_key: Seq<char>) -> bool {
    exists|i: int| 0 <= i < sessions.len() && (#[trigger] sessions[i]).session_key == session_key
}

/// The position of the session that carries `session_key`; meaningful only
/// under [`sessions_ok`], which makes tokens unique.
pub open spec fn token_index(sessions: Seq<SessionView>, session_key: Seq<char>) -> int {
    choose|i: int|
        0 <= i < sessions.len() && (#[trigger] sessions[i]).session_key == session_key
}

/// Whether some stored session binds this account to this device.
pub open spec fn pair_present(sessions: Seq<SessionView>, user_id: int, unique_id: Seq<char>) -> bool {
    exists|i: int|
        0 <= i < sessions.len() && (#[trigger] sessions[i]).user_id == user_id
            && sessions[i].unique_id == unique_id
}

/// The position of the session of this (account, device) pair; meaningful
/// only under [`sessions_ok`], which makes pairs unique.
pub open spec fn pair_index(sessions: Seq<SessionView>, user_id: int, unique_id: Seq<char>) -> int {
    choose|i: int|
        0 <= i < sessions.len() && (#[trigger] sessions[i]).user_id == user_id
            && sessions[i].unique_id == unique_id
}

/// Whether some stored session has this primary key.
pub open spec fn id_present(sessions: Seq<SessionView>, id: int) -> bool {
    exists|i: int| 0 <= i < sessions.len() && (#[trigger] sessions[i]).id == id
}

/// The position of the session with primary key `id`; meaningful only
/// under [`sessions_ok`], which makes keys unique.
pub open spec fn id_index(sessions: Seq<SessionView>, id: int) -> int {
    choose|i: int| 0 <= i < sessions.len() && (#[trigger] sessions[i]).id == id
}

/// Whether `session_key` proves a live session at time `now`: some stored
/// session carries it and has not expired.
pub open spec fn has_active_session(
    sessions: Seq<SessionView>,
    session_key: Seq<char>,
    now: int,
) -> bool {
    exists|i: int|
        0 <= i < sessions.len() && (#[trigger] sessions[i]).session_key == session_key
            && now <= sessions[i].expire_time
}

/// The uniqueness constraints on stored sessions: primary keys, tokens,
/// and (account, device) pairs each appear at most once.
pub open spec fn sessions_ok(sessions: Seq<SessionView>) -> bool {
    &&& forall|i: int, j: int|
        #![trigger sessions[i].id, sessions[j].id]
        0 <= i < j < sessions.len() ==> sessions[i].id != sessions[j].id
    &&& forall|i: int, j: int|
        #![trigger sessions[i].session_key, sessions[j].session_key]
        0 <= i < j < sessions.len() ==> sessions[i].session_key != sessions[j].session_key
    &&& forall|i: int, j: int|
        #![trigger sessions[i].user_id, sessions[j].user_id]
        0 <= i < j < sessions.len()
            ==> !(sessions[i].user_id == sessions[j].user_id && sessions[i].unique_id
            == sessions[j].unique_id)
}

/// The mathematical image of a [`SessionStore`]: the stored sessions in
/// order, and the next primary key the store will assign.
#[verifier::ext_equal]
pub ghost struct SessionStoreView {
    pub sessions: Seq<SessionView>,
    pub next_id: int,
}

/// The session records, with an auto-increment primary-key counter.
pub struct SessionStore {
    sessions: Vec<Session>,
    next_id: i64,
}

impl View for SessionStore {
    type V = SessionStoreView;

    closed spec fn view(&self) -> SessionStoreView {
        SessionStoreView {
            sessions: self.sessions@.map_values(|s: Session| s@),
            next_id: self.next_id as int,
        }
    }
}

impl SessionStore {
    /// The store's invariant: the uniqueness constraints hold and every
    /// assigned primary key lies below the counter.
    pub closed spec fn wf(&self) -> bool {
        &&& sessions_ok(self@.sessions)
        &&& 1 <= self@.next_id
        &&& forall|i: int|
            0 <= i < self@.sessions.len() ==> 1 <= (#[trigger] self@.sessions[i]).id
                < self@.next_id
    }

    /// An empty store.
    pub fn new() -> (s: Self)
        ensures
            s.wf(),
            s@.sessions =~= Seq::<SessionView>::empty(),
            s@.next_id == 1,
    {
        SessionStore { sessions: Vec::new(), next_id: 1 }
    }

    /// How many sessions are stored.
    pub fn len(&self) -> (n: usize)
        ensures
            n == self@.sessions.len(),
    {
        self.sessions.len()
    }

    /// The session at a position, oldest first.
    pub fn session_at(&self, i: usize) -> (s: &Session)
        requires
            i < self@.sessions.len(),
        ensures
            s@ == self@.sessions[i as int],
    {
        &self.sessions[i]
    }

    /// Looks a session up by its token.
    pub fn find_by_token(&self, session_key: &str) -> (r: Option<&Session>)
        requires
            self.wf(),
        ensures
            match r {
                Some(s) => {
                    &&& s@.session_key == session_key@
                    &&& token_present(self@.sessions, session_key@)
                    &&& 0 <= token_index(self@.sessions, session_key@) < self@.sessions.len()
                    &&& s@ == self@.sessions[token_index(self@.sessions, session_key@)]
                    &&& forall|i: int|
                        0 <= i < self@.sessions.len() && (#[trigger] self@.sessions[i]).session_key
                            == session_key@ ==> self@.sessions[i] == s@
                },
                None => !token_present(self@.sessions, session_key@),
            },
    {
        let key: String = session_key.to_owned();
        let n = self.sessions.len();
        let mut k: usize = 0;
        while k < n
            invariant
                self.wf(),
                key@ == session_key@,
                n == self@.sessions.len(),
                0 <= k <= n,
                forall|i: int|
                    0 <= i < k ==> (#[trigger] self@.sessions[i]).session_key != session_key@,
            decreases n - k,
        {
            let s = &self.sessions[k];
            if s.session_key == key {
                proof {
                    let found = k as int;
                    assert(self@.sessions[found].session_key == session_key@);
                    let c = token_index(self@.sessions, session_key@);
                    assert(0 <= c < self@.sessions.len() && self@.sessions[c].session_key
                        == session_key@);
                    if c != found {
                        assert(self@.sessions[c].session_key != self@.sessions[found].session_key);
                    }
                }
                return Some(s);
            }
            k = k + 1;
        }
        None
    }

    /// Looks up the position of the session of an (account, device) pair.
    pub fn find_by_account_and_device(&self, user_id: i64, unique_id: &str) -> (r: Option<usize>)
        requires
            self.wf(),
        ensures
            match r {
                Some(i) => {
                    &&& i < self@.sessions.len()
                    &&& self@.sessions[i as int].user_id == user_id
                    &&& self@.sessions[i as int].unique_id == unique_id@
                    &&& pair_present(self@.sessions, user_id as int, unique_id@)
                    &&& pair_index(self@.sessions, user_id as int, unique_id@) == i as int
                },
                None => !pair_present(self@.sessions, user_id as int, unique_id@),
            },
    {
        let device: String = unique_id.to_owned();
        let n = self.sessions.len();
        let mut k: usize = 0;
        while k < n
            invariant
                self.wf(),
                device@ == unique_id@,
                n == self@.sessions.len(),
                0 <= k <= n,
                forall|i: int|
                    0 <= i < k ==> !((#[trigger] self@.sessions[i]).user_id == user_id
                        && self@.sessions[i].unique_id == unique_id@),
            decreases n - k,
        {
            let s = &self.sessions[k];
            if s.user_id == user_id && s.unique_id == device {
                proof {
                    let found = k as int;
                    assert(self@.sessions[found].user_id == user_id as int
                        && self@.sessions[found].unique_id == unique_id@);
                    let c = pair_index(self@.sessions, user_id as int, unique_id@);
                    assert(0 <= c < self@.sessions.len() && self@.sessions[c].user_id
                        == user_id as int && self@.sessions[c].unique_id == unique_id@);
                    if c != found {
                        assert(self@.sessions[c].user_id != self@.sessions[found].user_id
                            || self@.sessions[c].unique_id != self@.sessions[found].unique_id);
                    }
                }
                return Some(k);
            }
            k = k + 1;
        }
        None
    }

    /// Inserts a new session, enforcing the unique-token and unique-pair
    /// constraints and assigning the next primary key.
    pub fn insert_session(
        &mut self,
        session_key: &str,
        user_id: i64,
        unique_id: &str,
        expire_time: i64,
    ) -> (r: Result<Session, QuantumixException>)
        requires
            old(self).wf(),
            old(self)@.next_id < i64::MAX,
        ensures
            final(self).wf(),
            token_present(old(self)@.sessions, session_key@) || pair_present(
                old(self)@.sessions,
                user_id as int,
                unique_id@,
            ) ==> {
                &&& final(self)@ == old(self)@
                &&& r matches Err(e) && e is ColumnExists
            },
            !(token_present(old(self)@.sessions, session_key@) || pair_present(
                old(self)@.sessions,
                user_id as int,
                unique_id@,
            )) ==> (r matches Ok(s) && {
                &&& s@ == (SessionView {
                    id: old(self)@.next_id,
                    session_key: session_key@,
                    user_id: user_id as int,
                    unique_id: unique_id@,
                    expire_time: expire_time as int,
                })
                &&& final(self)@.sessions =~= old(self)@.sessions.push(s@)
                &&& final(self)@.next_id == old(self)@.next_id + 1
            }),
    {
        if self.find_by_token(session_key).is_some() {
            return Err(QuantumixException::ColumnExists { feature: "session_key".to_owned() });
        }
        if self.find_by_account_and_device(user_id, unique_id).is_some() {
            return Err(QuantumixException::ColumnExists { feature: "unique_id".to_owned() });
        }
        let id = self.next_id;
        let session = Session {
            id,
            session_key: session_key.to_owned(),
            user_id,
            unique_id: unique_id.to_owned(),
            expire_time,
        };
        let stored = session.clone();
        self.sessions.push(stored);
        self.next_id = id + 1;
        proof {
            assert(self@.sessions =~= old(self)@.sessions.push(session@));
        }
        Ok(session)
    }

    /// Replaces the token and expiry of the session with primary key `id`,
    /// in place, provided no other session already carries the new token.
    pub fn update_session(
        &mut self,
        id: i64,
        session_key: &str,
        expire_time: i64,
    ) -> (r: Result<Session, QuantumixException>)
        requires
            old(self).wf(),
        ensures
            final(self).wf(),
            final(self)@.next_id == old(self)@.next_id,
            !id_present(old(self)@.sessions, id as int) ==> {
                &&& final(self)@ == old(self)@
                &&& r matches Err(e) && e is ColumnNotFound
            },
            id_present(old(self)@.sessions, id as int) ==> {
                let at = id_index(old(self)@.sessions, id as int);
                &&& 0 <= at < old(self)@.sessions.len()
                &&& if exists|j: int|
                    0 <= j < old(self)@.sessions.len() && j != at
                        && (#[trigger] old(self)@.sessions[j]).session_key == session_key@ {
                    &&& final(self)@ == old(self)@
                    &&& r matches Err(e) && e is ColumnExists
                } else {
                    (r matches Ok(s) && {
                        &&& s@ == (SessionView {
                            session_key: session_key@,
                            expire_time: expire_time as int,
                            ..old(self)@.sessions[at]
                        })
                        &&& final(self)@.sessions =~= old(self)@.sessions.update(at, s@)
                    })
                }
            },
    {
        let ghost pre = self@.sessions;
        let n = self.sessions.len();
        let mut k: usize = 0;
        let mut found: Option<usize> = None;
        while k < n
            invariant
                *self == *old(self),
                self.wf(),
                pre == self@.sessions,
                n == self@.sessions.len(),
                0 <= k <= n,
                match found {
                    Some(i) => i < n && self@.sessions[i as int].id == id,
                    None => forall|i: int| 0 <= i < k ==> (#[trigger] self@.sessions[i]).id != id,
                },
            decreases n - k,
        {
            if found.is_none() && self.sessions[k].id == id {
                found = Some(k);
            }
            k = k + 1;
        }
        let at = match found {
            Some(i) => i,
            None => {
                return Err(QuantumixException::ColumnNotFound {
                    table: "session".to_owned(),
                    field: "id".to_owned(),
                    data: String::new(),
                });
            },
        };
        proof {
            let c = id_index(pre, id as int);
            assert(0 <= c < pre.len() && pre[c].id == id) by {
                assert(pre[at as int].id == id);
            }
            if c != at as int {
                assert(pre[c].id != pre[at as int].id);
            }
            assert(c == at as int);
        }
        let key: String = session_key.to_owned();
        let mut j: usize = 0;
        while j < n
            invariant
                *self == *old(self),
                self.wf(),
                pre == self@.sessions,
                key@ == session_key@,
                n == self@.sessions.len(),
                at < n,
                pre[at as int].id == id as int,
                id_index(pre, id as int) == at as int,
                0 <= j <= n,
                forall|i: int|
                    0 <= i < j && i != at ==> (#[trigger] self@.sessions[i]).session_key
                        != session_key@,
            decreases n - j,
        {
            if j != at && self.sessions[j].session_key == key {
                proof {
                    assert(self@.sessions[j as int] == self.sessions@[j as int]@);
                    assert(id_present(pre, id as int)) by {
                        assert(pre[at as int].id == id);
                    }
                }
                return Err(QuantumixException::ColumnExists { feature: "session_key".to_owned() });
            }
            j = j + 1;
        }
        let old_row = self.sessions[at].clone();
        proof {
            assert(self@.sessions[at as int] == self.sessions@[at as int]@);
        }
        let updated = Session {
            id: old_row.id,
            session_key: key,
            user_id: old_row.user_id,
            unique_id: old_row.unique_id,
            expire_time,
        };
        let stored = updated.clone();
        self.sessions.set(at, stored);
        proof {
            assert(id_present(pre, id as int)) by {
                assert(pre[at as int].id == id);
            }
            assert(self@.sessions =~= pre.update(at as int, updated@));
        }
        Ok(updated)
    }

    /// Deletes the session with primary key `id`; a miss leaves the store
    /// unchanged.
    pub fn delete_session(&mut self, id: i64)
        requires
            old(self).wf(),
        ensures
            final(self).wf(),
            final(self)@.next_id == old(self)@.next_id,
            !id_present(old(self)@.sessions, id as int) ==> final(self)@ == old(self)@,
            id_present(old(self)@.sessions, id as int) ==> {
                let at = id_index(old(self)@.sessions, id as int);
                &&& 0 <= at < old(self)@.sessions.len()
                &&& final(self)@.sessions =~= old(self)@.sessions.remove(at)
            },
    {
        let ghost pre = self@.sessions;
        let n = self.sessions.len();
        let mut k: usize = 0;
        while k < n
            invariant
                *self == *old(self),
                self.wf(),
                pre == self@.sessions,
                n == self@.sessions.len(),
                0 <= k <= n,
                forall|i: int| 0 <= i < k ==> (#[trigger] self@.sessions[i]).id != id,
            decreases n - k,
        {
            if self.sessions[k].id == id {
                proof {
                    let c = id_index(pre, id as int);
                    assert(0 <= c < pre.len() && pre[c].id == id) by {
                        assert(pre[k as int].id == id);
                    }
                    if c != k as int {
                        assert(pre[c].id != pre[k as int].id);
                    }
                }
                self.sessions.remove(k);
                proof {
                    assert(self@.sessions =~= pre.remove(k as int));
                }
                return;
            }
            k = k + 1;
        }
    }
}

/// A well-formed session store satisfies the uniqueness constraints and
/// keeps every assigned primary key below its counter.
pub proof fn lemma_session_store_wf(s: &SessionStore)
    requires
        s.wf(),
    ensures
        sessions_ok(s@.sessions),
        1 <= s@.next_id,
        forall|i: int|
            0 <= i < s@.sessions.len() ==> 1 <= (#[trigger] s@.sessions[i]).id < s@.next_id,
{
}

/// If `identity` matches the account at `i` and none before it, then `i`
/// is the first match.
proof fn lemma_first_identity_match_is(accounts: Seq<AccountView>, identity: Seq<char>, i: int)
    requires
        0 <= i < accounts.len(),
        identity_matches(accounts[i], identity),
        forall|j: int| 0 <= j < i ==> !identity_matches(#[trigger] accounts[j], identity),
    ensures
        has_identity_match(accounts, identity),
        first_identity_match(accounts, identity) == i,
{
    let c = first_identity_match(accounts, identity);
    assert(0 <= c < accounts.len() && identity_matches(accounts[c], identity) && (forall|j: int|
        0 <= j < c ==> !identity_matches(#[trigger] accounts[j], identity))) by {
        assert(0 <= i < accounts.len() && identity_matches(accounts[i], identity) && (forall|
            j: int,
        | 0 <= j < i ==> !identity_matches(#[trigger] accounts[j], identity)));
    }
    if c < i {
        assert(!identity_matches(accounts[c], identity));
    }
    if i < c {
        assert(!identity_matches(accounts[i], identity));
    }
}

} // verus!
