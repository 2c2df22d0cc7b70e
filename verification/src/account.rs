use vstd::prelude::*;

use argon2::password_hash::rand_core::OsRng;
use argon2::password_hash::{PasswordHash, PasswordHasher, PasswordVerifier, SaltString};

use crate::auth::mint_token;
use crate::bytes::clone_bytes;
use crate::err::ApiError;
use crate::store::{
    account_insert, account_named, has_account, has_session, session_insert, session_named, wf,
    AccountV, SessionV, Store,
};

verus! {

/// Whether the memory-hard password-hashing scheme accepts `password`
/// against the PHC string `hash`: what `argon2`'s verification yields,
/// which depends on the two arguments alone (the salt and parameters are
/// part of the PHC string).
pub uninterp spec fn argon_verifies(password: Seq<u8>, hash: Seq<u8>) -> bool;

/// Relies on argon2::Argon2::verify_password (with
/// password_hash::PasswordHash::new reading the PHC string): the outcome
/// is a deterministic function of the password and the stored string; an
/// unreadable string verifies nothing.
#[verifier::external_body]
fn verify_password(password: &Vec<u8>, hash: &Vec<u8>) -> (r: bool)
    ensures
        r == argon_verifies(password@, hash@),
{
    let Ok(s) = core::str::from_utf8(hash.as_slice()) else { return false };
    let Ok(parsed) = PasswordHash::new(s) else { return false };
    argon2::Argon2::default().verify_password(password.as_slice(), &parsed).is_ok()
}

/// Relies on argon2::Argon2::hash_password with a fresh random salt: the
/// salt is drawn anew, so nothing is promised of the string's value, but
/// the scheme recomputes the hash from the embedded salt and parameters
/// on verification, so the returned PHC string verifies against the
/// hashed password.
#[verifier::external_body]
fn hash_password(password: &Vec<u8>) -> (r: Result<Vec<u8>, ()>)
    ensures
        r matches Ok(h) ==> argon_verifies(password@, h@),
{
    let salt = SaltString::generate(&mut OsRng);
    match argon2::Argon2::default().hash_password(password.as_slice(), &salt) {
        Ok(h) => Ok(h.to_string().into_bytes()),
        Err(_) => Err(()),
    }
}

/// Create an account and log it straight in: hash the password, reserve
/// the username, and mint a session. An over-long username is
/// `BadRequest`; a taken username is `Conflict`; a hashing or
/// token-collision failure surfaces as `Internal` instead of crashing.
pub fn create_account(store: &mut Store, username: Vec<u8>, password: &Vec<u8>, now: u64) -> (r:
    Result<u128, ApiError>)
    requires
        wf(old(store)@),
    ensures
        wf(final(store)@),
        final(store)@.domains == old(store)@.domains,
        (r == Err::<u128, ApiError>(ApiError::BadRequest)) <==> username@.len() > 64,
        username@.len() <= 64 ==> ((r == Err::<u128, ApiError>(ApiError::Conflict)) <==> has_account(
            old(store)@.accounts,
            username@,
        )),
        r matches Err(e) && e != ApiError::Internal ==> final(store)@ == old(store)@,
        r matches Ok(t) ==> ({
            &&& !has_account(old(store)@.accounts, username@)
            &&& final(store)@.accounts.len() == old(store)@.accounts.len() + 1
            &&& final(store)@.accounts == old(store)@.accounts.push(
                final(store)@.accounts.last(),
            )
            &&& final(store)@.accounts.last().username == username@
            &&& final(store)@.accounts.last().created_at == now
            &&& argon_verifies(password@, final(store)@.accounts.last().pass_hash)
            &&& !has_session(old(store)@.sessions, t)
            &&& final(store)@.sessions == old(store)@.sessions.push(
                SessionV { id: t, username: username@ },
            )
        }),
        r == Err::<u128, ApiError>(ApiError::Internal) ==> ({
            &&& final(store)@.sessions == old(store)@.sessions
            &&& final(store)@.accounts == old(store)@.accounts || ({
                // the account was reserved but the session could not be
                // minted: the one new row is the requested account.
                &&& final(store)@.accounts == old(store)@.accounts.push(
                    final(store)@.accounts.last(),
                )
                &&& final(store)@.accounts.len() == old(store)@.accounts.len() + 1
                &&& final(store)@.accounts.last().username == username@
                &&& final(store)@.accounts.last().created_at == now
                &&& argon_verifies(password@, final(store)@.accounts.last().pass_hash)
            })
        }),
    {
        if username.len() > 64 {
            return Err(ApiError::BadRequest);
        }
        if store.account_exists(&username) {
            return Err(ApiError::Conflict);
        }
        let hash = match hash_password(password) {
            Ok(h) => h,
            Err(_) => {
                return Err(ApiError::Internal);
            },
        };
        let uname = clone_bytes(&username);
        let ghost hv = hash@;
        match store.insert_account(username, hash, now) {
            Ok(_) => (),
            Err(_) => {
                proof {
                    assert(false);
                }
                return Err(ApiError::Internal);
            },
        }
        let t = mint_token();
        proof {
            assert(store@.accounts[store@.accounts.len() - 1].username == uname@);
            assert(has_account(store@.accounts, uname@));
        }
        match store.create_session(t, uname) {
            Ok(_) => Ok(t),
            Err(_) => Err(ApiError::Internal),
        }
    }

/// Verify credentials and mint a fresh session. An unknown username and a
/// wrong password yield the same `Unauthorized`, revealing nothing about
/// which it was; a successful login never reuses a live token.
pub fn login(store: &mut Store, username: &Vec<u8>, password: &Vec<u8>) -> (r: Result<
    u128,
    ApiError,
>)
    requires
        wf(old(store)@),
    ensures
        wf(final(store)@),
        final(store)@.accounts == old(store)@.accounts,
        final(store)@.domains == old(store)@.domains,
        (r == Err::<u128, ApiError>(ApiError::Unauthorized)) <==> (match account_named(
            old(store)@.accounts,
            username@,
        ) {
            Some(a) => !argon_verifies(password@, a.pass_hash),
            None => true,
        }),
        r matches Err(_) ==> final(store)@.sessions == old(store)@.sessions,
        r matches Ok(t) ==> ({
            &&& account_named(old(store)@.accounts, username@) matches Some(a)
                && argon_verifies(password@, a.pass_hash)
            &&& !has_session(old(store)@.sessions, t)
            &&& final(store)@.sessions == old(store)@.sessions.push(
                SessionV { id: t, username: username@ },
            )
        }),
    {
        let (hash, _created) = match store.find_account(username) {
            Some(row) => row,
            None => {
                return Err(ApiError::Unauthorized);
            },
        };
        if !verify_password(password, &hash) {
            return Err(ApiError::Unauthorized);
        }
        let t = mint_token();
        match store.create_session(t, clone_bytes(username)) {
            Ok(_) => Ok(t),
            Err(_) => Err(ApiError::Internal),
        }
    }

/// Delete the session a token stands for. Idempotent: an unknown token
/// deletes nothing and is still success.
pub fn logout(store: &mut Store, token: u128)
    requires
        wf(old(store)@),
    ensures
        wf(final(store)@),
        final(store)@.accounts == old(store)@.accounts,
        final(store)@.domains == old(store)@.domains,
        final(store)@.sessions == crate::store::session_delete(old(store)@.sessions, token),
        !has_session(final(store)@.sessions, token),
    {
        store.delete_session(token);
        proof {
            lemma_session_delete_misses(old(store)@.sessions, token);
        }
    }

/// After deleting a token's session the token is no longer live.
proof fn lemma_session_delete_misses(sessions: Seq<SessionV>, id: u128)
    ensures
        !has_session(crate::store::session_delete(sessions, id), id) || !crate::store::unique_session_ids(
            sessions,
        ),
{
    let out = crate::store::session_delete(sessions, id);
    if crate::store::unique_session_ids(sessions) && has_session(sessions, id) {
        let k = crate::store::session_idx(sessions, id);
        sessions.remove_ensures(k);
        if has_session(out, id) {
            let i = choose|i: int| 0 <= i < out.len() && #[trigger] out[i].id == id;
            if i < k {
                assert(out[i] == sessions[i]);
            } else {
                assert(out[i] == sessions[i + 1]);
            }
        }
    }
}

/// The identity and creation time behind a live session: the join of the
/// session and account tables the transport shows as "who am I".
pub fn get_user(store: &Store, token: u128) -> (r: Result<(Vec<u8>, u64), ApiError>)
    requires
        wf(store@),
    ensures
        match r {
            Ok(p) => (session_named(store@.sessions, token) matches Some(s) && ({
                &&& p.0@ == s.username
                &&& account_named(store@.accounts, s.username) matches Some(a) && p.1
                    == a.created_at
            })),
            Err(e) => e == ApiError::Unauthorized && !has_session(store@.sessions, token),
        },
{
    let u = match store.session_user(token) {
        Some(u) => u,
        None => {
            return Err(ApiError::Unauthorized);
        },
    };
    proof {
        let k = crate::store::session_idx(store@.sessions, token);
        assert(has_account(store@.accounts, store@.sessions[k].username));
    }
    match store.find_account(&u) {
        Some(row) => Ok((u, row.1)),
        None => {
            proof {
                assert(false);
            }
            Err(ApiError::Internal)
        },
    }
}

/// Distinct logins mint distinct tokens: a second session inserted after
/// a first, each under a token that was free at its own insert, cannot
/// reuse the first token. This is why repeated logins hand out fresh
/// tokens rather than replaying one.
pub proof fn lemma_tokens_distinct(sessions: Seq<SessionV>, t1: u128, u1: Seq<u8>, t2: u128, u2: Seq<u8>)
    requires
        !has_session(sessions, t1),
        !has_session(session_insert(sessions, t1, u1).0, t2),
    ensures
        t2 != t1,
{
    let s1 = session_insert(sessions, t1, u1).0;
    assert(s1[sessions.len() as int].id == t1);
    if t2 == t1 {
        assert(has_session(s1, t1));
    }
}

} // verus!
