use vstd::prelude::*;

use crate::addr::{Address, Family};
use crate::err::ApiError;
use crate::store::{
    domain_delete, domain_insert, domain_named, domain_update, has_domain, has_owned_domain,
    has_session, owned_by, session_named, unique_domain_names, wf, DomainRow, DomainV, Store,
};

verus! {

/// The view of an optional byte string.
pub open spec fn opt_bytes_view(o: Option<Vec<u8>>) -> Option<Seq<u8>> {
    match o {
        Some(b) => Some(b@),
        None => None,
    }
}

/// Create a binding for the session's user. The uniqueness check and the
/// insert are one atomic store operation, so of two concurrent creations
/// of one name exactly one succeeds and the other sees `Conflict`.
pub fn create_domain(store: &mut Store, token: u128, name: Vec<u8>) -> (r: Result<(), ApiError>)
    requires
        wf(old(store)@),
    ensures
        wf(final(store)@),
        final(store)@.accounts == old(store)@.accounts,
        final(store)@.sessions == old(store)@.sessions,
        (r == Err::<(), ApiError>(ApiError::BadRequest)) <==> name@.len() > 63,
        name@.len() <= 63 ==> ((r == Err::<(), ApiError>(ApiError::Unauthorized)) <==> !has_session(
            old(store)@.sessions,
            token,
        )),
        r matches Err(_) ==> final(store)@.domains == old(store)@.domains,
        name@.len() <= 63 ==> (session_named(old(store)@.sessions, token) matches Some(s) ==> ({
            let (t, ok) = domain_insert(old(store)@.domains, name@, s.username);
            &&& final(store)@.domains == t
            &&& (r is Ok) == ok
            &&& r is Ok || r == Err::<(), ApiError>(ApiError::Conflict)
        })),
{
    if name.len() > 63 {
        return Err(ApiError::BadRequest);
    }
    let owner = match store.session_user(token) {
        Some(u) => u,
        None => {
            return Err(ApiError::Unauthorized);
        },
    };
    proof {
        let k = crate::store::session_idx(store@.sessions, token);
        assert(crate::store::has_account(store@.accounts, store@.sessions[k].username));
    }
    match store.insert_domain(name, owner) {
        Ok(_) => Ok(()),
        Err(_) => Err(ApiError::Conflict),
    }
}

/// What an update request means: the explicit `type` parameter and the
/// family of the supplied address must agree, an omitted type is taken
/// from the address, and a request with neither type nor address says
/// nothing. This mirrors the transport's decision table.
pub open spec fn update_plan(ty: Option<Seq<u8>>, ip: Option<Address>) -> Result<
    (Family, Option<Address>),
    ApiError,
> {
    if ty is None && ip is None {
        Err(ApiError::BadRequest)
    } else if (ty is None || ty == Some(ipv4_kw())) && (ip is None || ip matches Some(
        Address::V4(_),
    )) {
        Ok((Family::V4, ip))
    } else if (ty is None || ty == Some(ipv6_kw())) && (ip is None || ip matches Some(
        Address::V6(_),
    )) {
        Ok((Family::V6, ip))
    } else {
        Err(ApiError::BadRequest)
    }
}

/// The bytes of the query-parameter value `ipv4`.
pub open spec fn ipv4_kw() -> Seq<u8> {
    seq![105u8, 112u8, 118u8, 52u8]
}

/// The bytes of the query-parameter value `ipv6`.
pub open spec fn ipv6_kw() -> Seq<u8> {
    seq![105u8, 112u8, 118u8, 54u8]
}

fn is_ipv4_kw(t: &Vec<u8>) -> (r: bool)
    ensures
        r == (t@ == ipv4_kw()),
{
    let r = t.len() == 4 && t[0] == 105u8 && t[1] == 112u8 && t[2] == 118u8 && t[3] == 52u8;
    proof {
        if r {
            assert(t@ =~= ipv4_kw());
        }
    }
    r
}

fn is_ipv6_kw(t: &Vec<u8>) -> (r: bool)
    ensures
        r == (t@ == ipv6_kw()),
{
    let r = t.len() == 4 && t[0] == 105u8 && t[1] == 112u8 && t[2] == 118u8 && t[3] == 54u8;
    proof {
        if r {
            assert(t@ =~= ipv6_kw());
        }
    }
    r
}

/// Decide family and new value from an update request's parts.
pub fn update_request(ty: &Option<Vec<u8>>, ip: &Option<Address>) -> (r: Result<
    (Family, Option<Address>),
    ApiError,
>)
    ensures
        r == update_plan(opt_bytes_view(*ty), *ip),
{
    match (ty, ip) {
        (None, None) => Err(ApiError::BadRequest),
        (None, Some(a)) => match a {
            Address::V4(_) => Ok((Family::V4, Some(*a))),
            Address::V6(_) => Ok((Family::V6, Some(*a))),
        },
        (Some(t), _) => {
            if is_ipv4_kw(t) {
                match ip {
                    None => Ok((Family::V4, None)),
                    Some(Address::V4(a)) => Ok((Family::V4, Some(Address::V4(*a)))),
                    Some(Address::V6(_)) => Err(ApiError::BadRequest),
                }
            } else if is_ipv6_kw(t) {
                match ip {
                    None => Ok((Family::V6, None)),
                    Some(Address::V6(a)) => Ok((Family::V6, Some(Address::V6(*a)))),
                    Some(Address::V4(_)) => Err(ApiError::BadRequest),
                }
            } else {
                Err(ApiError::BadRequest)
            }
        },
    }
}

/// Set or clear one family's address on a binding. The ownership check
/// and the write are one atomic store operation over "name and owner
/// match"; zero affected rows is `Forbidden`, which deliberately does not
/// reveal whether the name exists at all.
pub fn update_domain(
    store: &mut Store,
    token: u128,
    name: &Vec<u8>,
    ty: &Option<Vec<u8>>,
    ip: &Option<Address>,
) -> (r: Result<(), ApiError>)
    requires
        wf(old(store)@),
    ensures
        wf(final(store)@),
        final(store)@.accounts == old(store)@.accounts,
        final(store)@.sessions == old(store)@.sessions,
        r matches Err(_) ==> final(store)@.domains == old(store)@.domains,
        update_plan(opt_bytes_view(*ty), *ip) matches Err(e) ==> r == Err::<(), ApiError>(e),
        update_plan(opt_bytes_view(*ty), *ip) matches Ok(plan) ==> (match session_named(
            old(store)@.sessions,
            token,
        ) {
            Some(s) => ({
                let (t, hit) = domain_update(old(store)@.domains, name@, s.username, plan.0, plan.1);
                &&& final(store)@.domains == t
                &&& (r is Ok) == hit
                &&& !hit ==> r == Err::<(), ApiError>(ApiError::Forbidden)
            }),
            None => r == Err::<(), ApiError>(ApiError::Forbidden),
        }),
{
    let (family, addr) = match update_request(ty, ip) {
        Ok(p) => p,
        Err(e) => {
            return Err(e);
        },
    };
    let owner = match store.session_user(token) {
        Some(u) => u,
        None => {
            return Err(ApiError::Forbidden);
        },
    };
    let rows = store.update_domain_addr(name, &owner, family, addr);
    if rows == 0 {
        Err(ApiError::Forbidden)
    } else {
        Ok(())
    }
}

/// Delete a binding. As with updates, "name and owner match" is checked
/// atomically with the delete, and zero affected rows is `Forbidden`.
pub fn delete_domain(store: &mut Store, token: u128, name: &Vec<u8>) -> (r: Result<(), ApiError>)
    requires
        wf(old(store)@),
    ensures
        wf(final(store)@),
        final(store)@.accounts == old(store)@.accounts,
        final(store)@.sessions == old(store)@.sessions,
        r matches Err(_) ==> final(store)@.domains == old(store)@.domains,
        match session_named(old(store)@.sessions, token) {
            Some(s) => ({
                let (t, hit) = domain_delete(old(store)@.domains, name@, s.username);
                &&& final(store)@.domains == t
                &&& (r is Ok) == hit
                &&& !hit ==> r == Err::<(), ApiError>(ApiError::Forbidden)
            }),
            None => r == Err::<(), ApiError>(ApiError::Forbidden),
        },
{
    let owner = match store.session_user(token) {
        Some(u) => u,
        None => {
            return Err(ApiError::Forbidden);
        },
    };
    let rows = store.delete_domain_row(name, &owner);
    if rows == 0 {
        Err(ApiError::Forbidden)
    } else {
        Ok(())
    }
}

/// The bindings owned by the session's user, in stored order. As with
/// every operation behind the authorization engine, a token with no live
/// session is `Unauthorized`.
pub fn list_domains(store: &Store, token: u128) -> (r: Result<Vec<DomainRow>, ApiError>)
    requires
        wf(store@),
    ensures
        match r {
            Ok(v) => (session_named(store@.sessions, token) matches Some(s) && v@.map_values(
                |d: DomainRow| d@,
            ) == store@.domains.filter(owned_by(s.username))),
            Err(e) => e == ApiError::Unauthorized && !has_session(store@.sessions, token),
        },
{
    match store.session_user(token) {
        Some(u) => Ok(store.domains_of_owner(&u)),
        None => Err(ApiError::Unauthorized),
    }
}

/// Two creations of one name, in either order: the first succeeds, the
/// second fails, and afterwards exactly one binding carries the name.
/// This is the store-level fact behind concurrent `create_domain` calls
/// racing on a name: whichever insert the store serializes first wins.
pub proof fn lemma_create_race(domains: Seq<DomainV>, name: Seq<u8>, o1: Seq<u8>, o2: Seq<u8>)
    requires
        unique_domain_names(domains),
        !has_domain(domains, name),
    ensures
        ({
            let (d1, ok1) = domain_insert(domains, name, o1);
            let (d2, ok2) = domain_insert(d1, name, o2);
            &&& ok1
            &&& !ok2
            &&& d2 == d1
            &&& unique_domain_names(d2)
            &&& exists|i: int|
                0 <= i < d2.len() && (#[trigger] d2[i].name) == name && (forall|j: int|
                    0 <= j < d2.len() && (#[trigger] d2[j].name) == name ==> j == i)
        }),
{
    let (d1, ok1) = domain_insert(domains, name, o1);
    let k = domains.len() as int;
    assert(d1[k].name == name);
    assert(has_domain(d1, name));
    assert forall|i: int, j: int| 0 <= i < j < d1.len() implies d1[i].name != d1[j].name by {
        if j < k {
            assert(d1[i] == domains[i] && d1[j] == domains[j]);
        } else {
            if d1[i].name == name {
                assert(has_domain(domains, name));
            }
        }
    }
    assert forall|j: int| 0 <= j < d1.len() && (#[trigger] d1[j].name) == name implies j == k by {
        if j < k {
            assert(has_domain(domains, name));
        }
    }
}

/// An ownership-gated mutation under the wrong identity changes nothing:
/// if the binding's recorded owner is not the acting user, both the
/// conditional update and the conditional delete affect zero rows and
/// leave the table as it was.
pub proof fn lemma_mutation_needs_ownership(
    domains: Seq<DomainV>,
    name: Seq<u8>,
    owner: Seq<u8>,
    family: Family,
    addr: Option<Address>,
)
    requires
        unique_domain_names(domains),
        domain_named(domains, name) matches Some(d) && d.owner != owner,
    ensures
        domain_update(domains, name, owner, family, addr) == (domains, false),
        domain_delete(domains, name, owner) == (domains, false),
{
    if has_owned_domain(domains, name, owner) {
        let i = choose|i: int|
            0 <= i < domains.len() && #[trigger] domains[i].name == name && domains[i].owner
                == owner;
        crate::store::lemma_domain_idx_is(domains, name, i);
    }
}

} // verus!
