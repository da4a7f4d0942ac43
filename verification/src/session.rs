//! Session issuance, validation and rotation.
//!
//! For each (account, device) pair at most one session exists. A login
//! within the validity window hands back the existing token unchanged; a
//! login after expiry derives a fresh token and overwrites the existing
//! record in place, so session rows never multiply per pair; a read that
//! requests cleanup deletes the expired record it found. All expiry
//! arithmetic runs on an injected clock value, never on one read here.

use vstd::prelude::*;

use crate::exceptions::QuantumixException;
use crate::model::{Session, SessionView};
use crate::password::{hash_password, within_hash_cap};
use crate::store::{
    has_active_session, id_index, lemma_session_store_wf, pair_index, pair_present, sessions_ok,
    token_index, token_present, SessionStore, SessionStoreView,
};

verus! {

/// How long a fresh or rotated session stays valid: 31 days, in seconds.
pub const SESSION_VALIDITY_SECS: i64 = 31 * 86400;

/// What one `create_or_rotate` call does, as a relation between the store
/// before (`pre`), the store after (`post`), and the result `r`.
///
/// A pair without a session gets a new record under a fresh token; a pair
/// with a live session keeps it untouched and gets its token back; a pair
/// with an expired session has token and expiry overwritten in place. An
/// error leaves the store unchanged and is either a hashing failure —
/// ruled out for device ids within argon2's byte cap — or a store
/// constraint violation; a live session is returned without either being
/// possible.
pub open spec fn create_or_rotate_post(
    pre: SessionStoreView,
    post: SessionStoreView,
    user_id: int,
    unique_id: Seq<char>,
    now: int,
    r: Result<String, QuantumixException>,
) -> bool {
    &&& (pair_present(pre.sessions, user_id, unique_id) && now <= pre.sessions[pair_index(
        pre.sessions,
        user_id,
        unique_id,
    )].expire_time ==> r is Ok)
    &&& match r {
        Ok(key) => {
            if !pair_present(pre.sessions, user_id, unique_id) {
                &&& !token_present(pre.sessions, key@)
                &&& post.sessions == pre.sessions.push(
                    SessionView {
                        id: pre.next_id,
                        session_key: key@,
                        user_id: user_id,
                        unique_id: unique_id,
                        expire_time: now + SESSION_VALIDITY_SECS as int,
                    },
                )
                &&& post.next_id == pre.next_id + 1
            } else {
                let at = pair_index(pre.sessions, user_id, unique_id);
                if now <= pre.sessions[at].expire_time {
                    &&& post == pre
                    &&& key@ == pre.sessions[at].session_key
                } else {
                    &&& forall|j: int|
                        0 <= j < pre.sessions.len() && j != at ==> (#[trigger] pre.sessions[j]).session_key != key@
                    &&& post.sessions == pre.sessions.update(
                        at,
                        SessionView {
                            session_key: key@,
                            expire_time: now + SESSION_VALIDITY_SECS as int,
                            ..pre.sessions[at]
                        },
                    )
                    &&& post.next_id == pre.next_id
                }
            }
        },
        Err(e) => {
            &&& post == pre
            &&& (e is PasswordHashFailed || e is ColumnExists)
        },
    }
}

/// Issues or refreshes the session of one (account, device) pair at time
/// `now` and returns its token, as [`create_or_rotate_post`] describes.
pub fn create_or_rotate(
    sessions: &mut SessionStore,
    user_id: i64,
    unique_id: &str,
    now: i64,
) -> (r: Result<String, QuantumixException>)
    requires
        old(sessions).wf(),
        now <= i64::MAX - SESSION_VALIDITY_SECS,
        old(sessions)@.next_id < i64::MAX,
    ensures
        final(sessions).wf(),
        create_or_rotate_post(
            old(sessions)@,
            final(sessions)@,
            user_id as int,
            unique_id@,
            now as int,
            r,
        ),
        within_hash_cap(unique_id) ==> !(r matches Err(e) && e is PasswordHashFailed),
{
    proof {
        lemma_session_store_wf(sessions);
    }
    let found = sessions.find_by_account_and_device(user_id, unique_id);
    match found {
        Some(at) => {
            let expire_time = sessions.session_at(at).expire_time;
            if now <= expire_time {
                let key = sessions.session_at(at).session_key.clone();
                return Ok(key);
            }
            let id = sessions.session_at(at).id;
            let key = match hash_password(unique_id) {
                Ok(k) => k,
                Err(e) => {
                    return Err(e);
                },
            };
            let expire = now + SESSION_VALIDITY_SECS;
            proof {
                let pre = sessions@.sessions;
                let c = id_index(pre, id as int);
                assert(0 <= c < pre.len() && pre[c].id == id) by {
                    assert(pre[at as int].id == id);
                }
                if c != at as int {
                    assert(pre[c].id != pre[at as int].id);
                }
                assert(c == at as int);
            }
            match sessions.update_session(id, key.as_str(), expire) {
                Ok(_updated) => Ok(key),
                Err(e) => Err(e),
            }
        },
        None => {
            let key = match hash_password(unique_id) {
                Ok(k) => k,
                Err(e) => {
                    return Err(e);
                },
            };
            let expire = now + SESSION_VALIDITY_SECS;
            match sessions.insert_session(key.as_str(), user_id, unique_id, expire) {
                Ok(_inserted) => Ok(key),
                Err(e) => Err(e),
            }
        },
    }
}

/// Looks a token up and answers with the live session it proves, if any.
/// An expired record yields nothing, and is deleted when the caller
/// requests cleanup; a live record is never touched.
pub fn validate_and_return_session(
    sessions: &mut SessionStore,
    session_key: &str,
    delete_expired: bool,
    now: i64,
) -> (r: Option<Session>)
    requires
        old(sessions).wf(),
    ensures
        final(sessions).wf(),
        final(sessions)@.next_id == old(sessions)@.next_id,
        !token_present(old(sessions)@.sessions, session_key@) ==> r is None && final(sessions)@
            == old(sessions)@,
        token_present(old(sessions)@.sessions, session_key@) ==> {
            let at = token_index(old(sessions)@.sessions, session_key@);
            &&& 0 <= at < old(sessions)@.sessions.len()
            &&& if now > old(sessions)@.sessions[at].expire_time {
                &&& r is None
                &&& (delete_expired ==> final(sessions)@.sessions == old(
                    sessions,
                )@.sessions.remove(at))
                &&& (!delete_expired ==> final(sessions)@ == old(sessions)@)
            } else {
                &&& (r matches Some(s) && s@ == old(sessions)@.sessions[at])
                &&& final(sessions)@ == old(sessions)@
            }
        },
{
    proof {
        lemma_session_store_wf(sessions);
    }
    let found = match sessions.find_by_token(session_key) {
        Some(s) => s.clone(),
        None => {
            return None;
        },
    };
    if now > found.expire_time {
        if delete_expired {
            proof {
                let pre = sessions@.sessions;
                let at = token_index(pre, session_key@);
                let c = id_index(pre, found@.id);
                assert(0 <= c < pre.len() && pre[c].id == found@.id) by {
                    assert(pre[at].id == found@.id);
                }
                if c != at {
                    assert(pre[c].id != pre[at].id);
                }
                assert(c == at);
            }
            sessions.delete_session(found.id);
        }
        return None;
    }
    Some(found)
}

/// Whether `session_key` proves a live session at time `now`. Reads only;
/// an expired record is left for a cleanup pass to collect.
pub fn session(session_key: &str, now: i64, sessions: &SessionStore) -> (r: bool)
    ensures
        r == has_active_session(sessions@.sessions, session_key@, now as int),
{
    let key: String = session_key.to_owned();
    let n = sessions.len();
    let mut k: usize = 0;
    while k < n
        invariant
            key@ == session_key@,
            n == sessions@.sessions.len(),
            0 <= k <= n,
            forall|i: int|
                0 <= i < k ==> !((#[trigger] sessions@.sessions[i]).session_key == session_key@
                    && now <= sessions@.sessions[i].expire_time),
        decreases n - k,
    {
        let s = sessions.session_at(k);
        if s.session_key == key && now <= s.expire_time {
            return true;
        }
        k = k + 1;
    }
    false
}

/// Law: issuing a session twice in immediate succession for the same
/// (account, device) pair hands back the identical token both times, and
/// the second call leaves the store exactly as the first left it.
pub proof fn lemma_create_or_rotate_idempotent(
    pre: SessionStoreView,
    mid: SessionStoreView,
    post: SessionStoreView,
    user_id: int,
    unique_id: Seq<char>,
    now: int,
    k1: String,
    k2: String,
)
    requires
        sessions_ok(pre.sessions),
        sessions_ok(mid.sessions),
        create_or_rotate_post(pre, mid, user_id, unique_id, now, Ok(k1)),
        create_or_rotate_post(mid, post, user_id, unique_id, now, Ok(k2)),
    ensures
        k2@ == k1@,
        post == mid,
{
    if !pair_present(pre.sessions, user_id, unique_id) {
        let fresh = SessionView {
            id: pre.next_id,
            session_key: k1@,
            user_id: user_id,
            unique_id: unique_id,
            expire_time: now + SESSION_VALIDITY_SECS as int,
        };
        let n = pre.sessions.len() as int;
        assert(mid.sessions[n] == fresh);
        assert(pair_present(mid.sessions, user_id, unique_id));
        let c = pair_index(mid.sessions, user_id, unique_id);
        assert(0 <= c < mid.sessions.len() && mid.sessions[c].user_id == user_id
            && mid.sessions[c].unique_id == unique_id) by {
            assert(mid.sessions[n].user_id == user_id && mid.sessions[n].unique_id == unique_id);
        }
        if c != n {
            assert(mid.sessions[c] == pre.sessions[c]);
            assert(pair_present(pre.sessions, user_id, unique_id));
        }
        assert(c == n);
        assert(now <= mid.sessions[c].expire_time);
    } else {
        let at = pair_index(pre.sessions, user_id, unique_id);
        assert(0 <= at < pre.sessions.len() && pre.sessions[at].user_id == user_id
            && pre.sessions[at].unique_id == unique_id);
        if now <= pre.sessions[at].expire_time {
            assert(mid == pre);
            assert(k2@ == mid.sessions[pair_index(mid.sessions, user_id, unique_id)].session_key);
            assert(k1@ == pre.sessions[at].session_key);
        } else {
            let rotated = SessionView {
                session_key: k1@,
                expire_time: now + SESSION_VALIDITY_SECS as int,
                ..pre.sessions[at]
            };
            assert(mid.sessions[at] == rotated);
            assert(pair_present(mid.sessions, user_id, unique_id)) by {
                assert(mid.sessions[at].user_id == user_id && mid.sessions[at].unique_id
                    == unique_id);
            }
            let c = pair_index(mid.sessions, user_id, unique_id);
            assert(0 <= c < mid.sessions.len() && mid.sessions[c].user_id == user_id
                && mid.sessions[c].unique_id == unique_id) by {
                assert(mid.sessions[at].user_id == user_id && mid.sessions[at].unique_id
                    == unique_id);
            }
            if c != at {
                assert(mid.sessions[c] == pre.sessions[c]);
                assert(pre.sessions[c].user_id == user_id && pre.sessions[c].unique_id
                    == unique_id);
            }
            assert(c == at);
            assert(now <= mid.sessions[c].expire_time);
        }
    }
}

/// Law: a token just issued or confirmed for a pair proves a live session
/// at the very time it was issued, whichever of the three paths — fresh
/// insert, untouched live session, rotation — produced it.
pub proof fn lemma_issued_token_validates_now(
    pre: SessionStoreView,
    post: SessionStoreView,
    user_id: int,
    unique_id: Seq<char>,
    now: int,
    key: String,
)
    requires
        create_or_rotate_post(pre, post, user_id, unique_id, now, Ok(key)),
    ensures
        has_active_session(post.sessions, key@, now),
{
    if !pair_present(pre.sessions, user_id, unique_id) {
        let n = pre.sessions.len() as int;
        assert(post.sessions[n].session_key == key@ && now <= post.sessions[n].expire_time);
    } else {
        let at = pair_index(pre.sessions, user_id, unique_id);
        assert(0 <= at < pre.sessions.len());
        if now <= pre.sessions[at].expire_time {
            assert(post.sessions[at].session_key == key@ && now
                <= post.sessions[at].expire_time);
        } else {
            assert(post.sessions[at].session_key == key@ && now
                <= post.sessions[at].expire_time);
        }
    }
}

/// Law: after an expired session is rotated to a token other than its old
/// one, the old token no longer names any stored session, so it can prove
/// no live session at any later time.
pub proof fn lemma_rotation_invalidates_old_token(
    pre: SessionStoreView,
    post: SessionStoreView,
    user_id: int,
    unique_id: Seq<char>,
    now: int,
    k2: String,
    old_token: Seq<char>,
    later: int,
)
    requires
        sessions_ok(pre.sessions),
        pair_present(pre.sessions, user_id, unique_id),
        now > pre.sessions[pair_index(pre.sessions, user_id, unique_id)].expire_time,
        old_token == pre.sessions[pair_index(pre.sessions, user_id, unique_id)].session_key,
        create_or_rotate_post(pre, post, user_id, unique_id, now, Ok(k2)),
        k2@ != old_token,
    ensures
        !token_present(post.sessions, old_token),
        !has_active_session(post.sessions, old_token, later),
{
    let at = pair_index(pre.sessions, user_id, unique_id);
    assert(0 <= at < pre.sessions.len() && pre.sessions[at].user_id == user_id
        && pre.sessions[at].unique_id == unique_id);
    assert forall|j: int| 0 <= j < post.sessions.len() implies (#[trigger] post.sessions[j]).session_key
        != old_token by {
        if j == at {
            assert(post.sessions[j].session_key == k2@);
        } else {
            assert(post.sessions[j] == pre.sessions[j]);
            assert(pre.sessions[j].session_key != pre.sessions[at].session_key);
        }
    }
}

} // verus!
