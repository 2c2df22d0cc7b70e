use vstd::prelude::*;

use crate::bytes::bytes_range;
use crate::err::ApiError;
use crate::store::{has_session, session_named, wf, Store};

verus! {

/// What `uuid::Uuid::parse_str` yields on the UTF-8 reading of these
/// bytes, as the token's 128 bits; the result depends on the bytes alone.
pub uninterp spec fn parsed_token(s: Seq<u8>) -> Option<u128>;

/// Relies on uuid::Uuid::parse_str (and str::from_utf8 to read the
/// bytes): both depend on the argument alone.
#[verifier::external_body]
fn parse_token(s: &Vec<u8>) -> (r: Option<u128>)
    ensures
        r == parsed_token(s@),
{
    match core::str::from_utf8(s.as_slice()) {
        Ok(t) => uuid::Uuid::parse_str(t).ok().map(|u| u.as_u128()),
        Err(_) => None,
    }
}

/// Relies on uuid::Uuid::new_v4: a fresh random 128-bit token; nothing is
/// promised of its value.
#[verifier::external_body]
pub(crate) fn mint_token() -> (t: u128) {
    uuid::Uuid::new_v4().as_u128()
}

/// `i` is the first space at or after `from`.
pub open spec fn is_first_space(h: Seq<u8>, from: int, i: int) -> bool {
    from <= i < h.len() && h[i] == 32u8 && (forall|j: int| from <= j < i ==> h[j] != 32u8)
}

/// The second space-separated piece of a header value: the bytes between
/// the first space and the next one (or the end). `Bearer <token>` yields
/// the token; a value with no space yields nothing.
pub open spec fn bearer_of(h: Seq<u8>) -> Option<Seq<u8>> {
    if exists|i: int| is_first_space(h, 0, i) {
        let i = choose|i: int| is_first_space(h, 0, i);
        if exists|j: int| #[trigger] is_first_space(h, i + 1, j) {
            let j = choose|j: int| #[trigger] is_first_space(h, i + 1, j);
            Some(h.subrange(i + 1, j))
        } else {
            Some(h.subrange(i + 1, h.len() as int))
        }
    } else {
        None
    }
}

/// At most one index is the first space after a point.
proof fn lemma_first_space_unique(h: Seq<u8>, from: int, i: int)
    requires
        is_first_space(h, from, i),
    ensures
        forall|k: int| is_first_space(h, from, k) ==> k == i,
{
    assert forall|k: int| is_first_space(h, from, k) implies k == i by {
        if k < i {
            assert(h[k] != 32u8);
        } else if i < k {
            assert(h[i] != 32u8);
        }
    }
}

/// The first space at or after `from`, found by scanning.
fn find_space(h: &Vec<u8>, from: usize) -> (r: Option<usize>)
    requires
        from <= h@.len(),
    ensures
        match r {
            Some(i) => is_first_space(h@, from as int, i as int) && from <= i < h@.len(),
            None => !exists|i: int| is_first_space(h@, from as int, i),
        },
{
    let n = h.len();
    let mut i: usize = from;
    while i < n
        invariant
            from <= i <= n,
            n == h@.len(),
            forall|j: int| from <= j < i ==> h@[j] != 32u8,
        decreases n - i,
    {
        if h[i] == 32u8 {
            return Some(i);
        }
        i += 1;
    }
    proof {
        assert forall|k: int| !is_first_space(h@, from as int, k) by {
            if from <= k < h@.len() {
                assert(h@[k] != 32u8);
            }
        }
    }
    None
}

/// The bearer token's bytes, cut from an `Authorization` header value.
pub fn bearer_token(header: &Vec<u8>) -> (r: Option<Vec<u8>>)
    ensures
        match r {
            Some(t) => bearer_of(header@) matches Some(b) && t@ == b,
            None => bearer_of(header@) is None,
        },
{
    match find_space(header, 0) {
        None => None,
        Some(i) => {
            proof {
                lemma_first_space_unique(header@, 0, i as int);
            }
            assert(i < header.len());
            match find_space(header, i + 1) {
                None => Some(bytes_range(header, i + 1, header.len())),
                Some(j) => {
                    proof {
                        lemma_first_space_unique(header@, i + 1, j as int);
                    }
                    Some(bytes_range(header, i + 1, j))
                },
            }
        },
    }
}

/// A bearer token parsed from a header value: take the piece after the
/// first space and read it as a 128-bit identifier.
pub fn parse_bearer(header: &Vec<u8>) -> (r: Option<u128>)
    ensures
        r == (match bearer_of(header@) {
            Some(t) => parsed_token(t),
            None => None::<u128>,
        }),
{
    match bearer_token(header) {
        Some(t) => parse_token(&t),
        None => None,
    }
}

/// Resolve a bearer token to the username it stands for, or refuse. A
/// token with no live session is `Unauthorized`; sessions are valid until
/// explicitly revoked.
pub fn authenticate(store: &Store, token: u128) -> (r: Result<Vec<u8>, ApiError>)
    requires
        wf(store@),
    ensures
        match r {
            Ok(u) => session_named(store@.sessions, token) matches Some(s) && u@ == s.username,
            Err(e) => e == ApiError::Unauthorized && !has_session(store@.sessions, token),
        },
{
    match store.session_user(token) {
        Some(u) => Ok(u),
        None => Err(ApiError::Unauthorized),
    }
}

} // verus!
