use vstd::prelude::*;

use crate::addr::{addr_of, Address, Family};
use crate::bytes::{bytes_eq, clone_bytes};

verus! {

/// One account row: identity, opaque password hash, creation time.
pub struct Account {
    pub username: Vec<u8>,
    pub pass_hash: Vec<u8>,
    pub created_at: u64,
}

/// One session row: a 128-bit bearer token and the account it stands for.
pub struct Session {
    pub id: u128,
    pub username: Vec<u8>,
}

/// One domain binding: a subdomain label, its owner, and an optional
/// address per family.
#[derive(Debug, PartialEq, Eq)]
pub struct DomainRow {
    pub name: Vec<u8>,
    pub owner: Vec<u8>,
    pub ipv4: Option<u32>,
    pub ipv6: Option<u128>,
}

/// Mathematical image of an account row.
pub struct AccountV {
    pub username: Seq<u8>,
    pub pass_hash: Seq<u8>,
    pub created_at: u64,
}

/// Mathematical image of a session row.
pub struct SessionV {
    pub id: u128,
    pub username: Seq<u8>,
}

/// Mathematical image of a domain binding.
pub struct DomainV {
    pub name: Seq<u8>,
    pub owner: Seq<u8>,
    pub ipv4: Option<u32>,
    pub ipv6: Option<u128>,
}

impl View for Account {
    type V = AccountV;

    open spec fn view(&self) -> AccountV {
        AccountV { username: self.username@, pass_hash: self.pass_hash@, created_at: self.created_at }
    }
}

impl View for Session {
    type V = SessionV;

    open spec fn view(&self) -> SessionV {
        SessionV { id: self.id, username: self.username@ }
    }
}

impl View for DomainRow {
    type V = DomainV;

    open spec fn view(&self) -> DomainV {
        DomainV { name: self.name@, owner: self.owner@, ipv4: self.ipv4, ipv6: self.ipv6 }
    }
}

impl DomainV {
    /// The binding's address for one family.
    pub open spec fn addr(self, family: Family) -> Option<Address> {
        addr_of(self.ipv4, self.ipv6, family)
    }

    /// The binding with the column of one family replaced.
    pub open spec fn set_addr(self, family: Family, addr: Option<Address>) -> DomainV {
        match family {
            Family::V4 => (DomainV {
                ipv4: match addr {
                    Some(Address::V4(a)) => Some(a),
                    _ => None,
                },
                ..self
            }),
            Family::V6 => (DomainV {
                ipv6: match addr {
                    Some(Address::V6(a)) => Some(a),
                    _ => None,
                },
                ..self
            }),
        }
    }
}

/// Mathematical image of the whole store.
pub struct StoreV {
    pub accounts: Seq<AccountV>,
    pub sessions: Seq<SessionV>,
    pub domains: Seq<DomainV>,
}

// Lookups. Each table is keyed by one column; under `wf` the key is unique,
// so the chosen index is the only match.

pub open spec fn has_account(accounts: Seq<AccountV>, username: Seq<u8>) -> bool {
    exists|i: int| 0 <= i < accounts.len() && #[trigger] accounts[i].username == username
}

pub open spec fn account_idx(accounts: Seq<AccountV>, username: Seq<u8>) -> int {
    choose|i: int| 0 <= i < accounts.len() && #[trigger] accounts[i].username == username
}

/// The account row with the given username, if any.
pub open spec fn account_named(accounts: Seq<AccountV>, username: Seq<u8>) -> Option<AccountV> {
    if has_account(accounts, username) {
        Some(accounts[account_idx(accounts, username)])
    } else {
        None
    }
}

pub open spec fn has_session(sessions: Seq<SessionV>, id: u128) -> bool {
    exists|i: int| 0 <= i < sessions.len() && #[trigger] sessions[i].id == id
}

pub open spec fn session_idx(sessions: Seq<SessionV>, id: u128) -> int {
    choose|i: int| 0 <= i < sessions.len() && #[trigger] sessions[i].id == id
}

/// The session row carrying the given token, if any.
pub open spec fn session_named(sessions: Seq<SessionV>, id: u128) -> Option<SessionV> {
    if has_session(sessions, id) {
        Some(sessions[session_idx(sessions, id)])
    } else {
        None
    }
}

pub open spec fn has_domain(domains: Seq<DomainV>, name: Seq<u8>) -> bool {
    exists|i: int| 0 <= i < domains.len() && #[trigger] domains[i].name == name
}

pub open spec fn domain_idx(domains: Seq<DomainV>, name: Seq<u8>) -> int {
    choose|i: int| 0 <= i < domains.len() && #[trigger] domains[i].name == name
}

/// The domain binding with the given name, if any.
pub open spec fn domain_named(domains: Seq<DomainV>, name: Seq<u8>) -> Option<DomainV> {
    if has_domain(domains, name) {
        Some(domains[domain_idx(domains, name)])
    } else {
        None
    }
}

/// A binding with this name *and* this owner: the condition an
/// ownership-gated mutation matches on, atomically.
pub open spec fn has_owned_domain(domains: Seq<DomainV>, name: Seq<u8>, owner: Seq<u8>) -> bool {
    exists|i: int|
        0 <= i < domains.len() && #[trigger] domains[i].name == name && domains[i].owner == owner
}

pub open spec fn owned_domain_idx(domains: Seq<DomainV>, name: Seq<u8>, owner: Seq<u8>) -> int {
    choose|i: int|
        0 <= i < domains.len() && #[trigger] domains[i].name == name && domains[i].owner == owner
}

// Key uniqueness, one table at a time.

pub open spec fn unique_usernames(accounts: Seq<AccountV>) -> bool {
    forall|i: int, j: int|
        0 <= i < j < accounts.len() ==> #[trigger] accounts[i].username != #[trigger] accounts[j].username
}

pub open spec fn unique_session_ids(sessions: Seq<SessionV>) -> bool {
    forall|i: int, j: int|
        0 <= i < j < sessions.len() ==> #[trigger] sessions[i].id != #[trigger] sessions[j].id
}

pub open spec fn unique_domain_names(domains: Seq<DomainV>) -> bool {
    forall|i: int, j: int|
        0 <= i < j < domains.len() ==> #[trigger] domains[i].name != #[trigger] domains[j].name
}

/// The store's invariant: unique keys, referential integrity, and the
/// length bounds creation enforces.
pub open spec fn wf(s: StoreV) -> bool {
    &&& unique_usernames(s.accounts)
    &&& unique_session_ids(s.sessions)
    &&& unique_domain_names(s.domains)
    &&& forall|i: int|
        0 <= i < s.sessions.len() ==> has_account(s.accounts, #[trigger] s.sessions[i].username)
    &&& forall|i: int|
        0 <= i < s.domains.len() ==> has_account(s.accounts, #[trigger] s.domains[i].owner)
    &&& forall|i: int| 0 <= i < s.accounts.len() ==> (#[trigger] s.accounts[i].username).len() <= 64
    &&& forall|i: int| 0 <= i < s.domains.len() ==> (#[trigger] s.domains[i].name).len() <= 63
}

// Under uniqueness a found index is the chosen one.

pub proof fn lemma_account_idx_is(accounts: Seq<AccountV>, username: Seq<u8>, i: int)
    requires
        unique_usernames(accounts),
        0 <= i < accounts.len(),
        accounts[i].username == username,
    ensures
        has_account(accounts, username),
        account_idx(accounts, username) == i,
{
    assert(has_account(accounts, username));
    let k = account_idx(accounts, username);
    if k != i {
        assert(accounts[k].username == accounts[i].username);
    }
}

pub proof fn lemma_session_idx_is(sessions: Seq<SessionV>, id: u128, i: int)
    requires
        unique_session_ids(sessions),
        0 <= i < sessions.len(),
        sessions[i].id == id,
    ensures
        has_session(sessions, id),
        session_idx(sessions, id) == i,
{
    assert(has_session(sessions, id));
    let k = session_idx(sessions, id);
    if k != i {
        assert(sessions[k].id == sessions[i].id);
    }
}

pub proof fn lemma_domain_idx_is(domains: Seq<DomainV>, name: Seq<u8>, i: int)
    requires
        unique_domain_names(domains),
        0 <= i < domains.len(),
        domains[i].name == name,
    ensures
        has_domain(domains, name),
        domain_idx(domains, name) == i,
{
    assert(has_domain(domains, name));
    let k = domain_idx(domains, name);
    if k != i {
        assert(domains[k].name == domains[i].name);
    }
}

pub proof fn lemma_owned_domain_idx_is(domains: Seq<DomainV>, name: Seq<u8>, owner: Seq<u8>, i: int)
    requires
        unique_domain_names(domains),
        0 <= i < domains.len(),
        domains[i].name == name,
        domains[i].owner == owner,
    ensures
        has_owned_domain(domains, name, owner),
        owned_domain_idx(domains, name, owner) == i,
        domain_named(domains, name) == Some(domains[i]),
{
    assert(has_owned_domain(domains, name, owner));
    let k = owned_domain_idx(domains, name, owner);
    if k != i {
        assert(domains[k].name == domains[i].name);
    }
    lemma_domain_idx_is(domains, name, i);
}

// Transitions: what each store write does to the affected table. The
// conditional writes return whether a row was affected.

/// Reserve-or-fail insert of an account.
pub open spec fn account_insert(
    accounts: Seq<AccountV>,
    username: Seq<u8>,
    pass_hash: Seq<u8>,
    created_at: u64,
) -> (Seq<AccountV>, bool) {
    if has_account(accounts, username) {
        (accounts, false)
    } else {
        (accounts.push(AccountV { username, pass_hash, created_at }), true)
    }
}

/// Insert of a session under a token not yet in use.
pub open spec fn session_insert(sessions: Seq<SessionV>, id: u128, username: Seq<u8>) -> (
    Seq<SessionV>,
    bool,
) {
    if has_session(sessions, id) {
        (sessions, false)
    } else {
        (sessions.push(SessionV { id, username }), true)
    }
}

/// Deletion of the session carrying a token; a miss deletes nothing.
pub open spec fn session_delete(sessions: Seq<SessionV>, id: u128) -> Seq<SessionV> {
    if has_session(sessions, id) {
        sessions.remove(session_idx(sessions, id))
    } else {
        sessions
    }
}

/// Reserve-or-fail insert of a domain binding, with no addresses yet.
pub open spec fn domain_insert(domains: Seq<DomainV>, name: Seq<u8>, owner: Seq<u8>) -> (
    Seq<DomainV>,
    bool,
) {
    if has_domain(domains, name) {
        (domains, false)
    } else {
        (domains.push(DomainV { name, owner, ipv4: None, ipv6: None }), true)
    }
}

/// Ownership-gated update of one family's address column: the row must
/// match name *and* owner, atomically, or nothing changes.
pub open spec fn domain_update(
    domains: Seq<DomainV>,
    name: Seq<u8>,
    owner: Seq<u8>,
    family: Family,
    addr: Option<Address>,
) -> (Seq<DomainV>, bool) {
    if has_owned_domain(domains, name, owner) {
        let i = owned_domain_idx(domains, name, owner);
        (domains.update(i, domains[i].set_addr(family, addr)), true)
    } else {
        (domains, false)
    }
}

/// Ownership-gated deletion: the row must match name *and* owner,
/// atomically, or nothing changes.
pub open spec fn domain_delete(domains: Seq<DomainV>, name: Seq<u8>, owner: Seq<u8>) -> (
    Seq<DomainV>,
    bool,
) {
    if has_owned_domain(domains, name, owner) {
        (domains.remove(owned_domain_idx(domains, name, owner)), true)
    } else {
        (domains, false)
    }
}

/// The in-memory store: one table per entity, with `wf` as its
/// invariant. It stands for the relational store; every operation here is
/// one atomic statement there.
pub struct Store {
    accounts: Vec<Account>,
    sessions: Vec<Session>,
    domains: Vec<DomainRow>,
}

impl View for Store {
    type V = StoreV;

    closed spec fn view(&self) -> StoreV {
        StoreV {
            accounts: self.accounts@.map_values(|a: Account| a@),
            sessions: self.sessions@.map_values(|s: Session| s@),
            domains: self.domains@.map_values(|d: DomainRow| d@),
        }
    }
}

impl Store {
    /// An empty store.
    pub fn new() -> (s: Store)
        ensures
            s@.accounts.len() == 0,
            s@.sessions.len() == 0,
            s@.domains.len() == 0,
            wf(s@),
    {
        Store { accounts: Vec::new(), sessions: Vec::new(), domains: Vec::new() }
    }

    /// Whether an account with this username exists.
    pub fn account_exists(&self, username: &Vec<u8>) -> (r: bool)
        ensures
            r == has_account(self@.accounts, username@),
    {
        let n = self.accounts.len();
        let mut i: usize = 0;
        while i < n
            invariant
                i <= n,
                n == self.accounts@.len(),
                self@.accounts == self.accounts@.map_values(|a: Account| a@),
                forall|j: int| 0 <= j < i ==> #[trigger] self@.accounts[j].username != username@,
            decreases n - i,
        {
            if bytes_eq(&self.accounts[i].username, username) {
                assert(self@.accounts[i as int].username == username@);
                return true;
            }
            i += 1;
        }
        false
    }

    /// The stored hash and creation time for a username, if the account
    /// exists.
    pub fn find_account(&self, username: &Vec<u8>) -> (r: Option<(Vec<u8>, u64)>)
        requires
            wf(self@),
        ensures
            match r {
                Some(row) => account_named(self@.accounts, username@) matches Some(a) && row.0@
                    == a.pass_hash && row.1 == a.created_at,
                None => !has_account(self@.accounts, username@),
            },
    {
        let n = self.accounts.len();
        let mut i: usize = 0;
        while i < n
            invariant
                i <= n,
                n == self.accounts@.len(),
                wf(self@),
                self@.accounts == self.accounts@.map_values(|a: Account| a@),
                forall|j: int| 0 <= j < i ==> #[trigger] self@.accounts[j].username != username@,
            decreases n - i,
        {
            if bytes_eq(&self.accounts[i].username, username) {
                proof {
                    lemma_account_idx_is(self@.accounts, username@, i as int);
                }
                let hash = clone_bytes(&self.accounts[i].pass_hash);
                let created = self.accounts[i].created_at;
                return Some((hash, created));
            }
            i += 1;
        }
        None
    }
    /// Reserve-or-fail insert of an account row: the duplicate check and
    /// the insert are one atomic operation of the store.
    pub fn insert_account(&mut self, username: Vec<u8>, pass_hash: Vec<u8>, created_at: u64) -> (r:
        Result<(), ()>)
        requires
            wf(old(self)@),
            username@.len() <= 64,
        ensures
            wf(final(self)@),
            final(self)@.sessions == old(self)@.sessions,
            final(self)@.domains == old(self)@.domains,
            ({
                let (t, ok) = account_insert(old(self)@.accounts, username@, pass_hash@, created_at);
                final(self)@.accounts == t && (r is Ok) == ok
            }),
    {
        if self.account_exists(&username) {
            return Err(());
        }
        let ghost pre = self@;
        let ghost a = AccountV { username: username@, pass_hash: pass_hash@, created_at };
        self.accounts.push(Account { username, pass_hash, created_at });
        proof {
            assert(self@.accounts =~= pre.accounts.push(a));
            assert(self@.sessions =~= pre.sessions);
            assert(self@.domains =~= pre.domains);
            lemma_wf_after_account_push(pre, a);
        }
        Ok(())
    }

    /// Insert of a session row for an existing account; fails only if the
    /// token is already in use.
    pub fn create_session(&mut self, id: u128, username: Vec<u8>) -> (r: Result<(), ()>)
        requires
            wf(old(self)@),
            has_account(old(self)@.accounts, username@),
        ensures
            wf(final(self)@),
            final(self)@.accounts == old(self)@.accounts,
            final(self)@.domains == old(self)@.domains,
            ({
                let (t, ok) = session_insert(old(self)@.sessions, id, username@);
                final(self)@.sessions == t && (r is Ok) == ok
            }),
    {
        if self.session_exists(id) {
            return Err(());
        }
        let ghost pre = self@;
        let ghost s = SessionV { id, username: username@ };
        self.sessions.push(Session { id, username });
        proof {
            assert(self@.sessions =~= pre.sessions.push(s));
            assert(self@.accounts =~= pre.accounts);
            assert(self@.domains =~= pre.domains);
            lemma_wf_after_session_push(pre, s);
        }
        Ok(())
    }

    /// Whether a session with this token exists.
    pub fn session_exists(&self, id: u128) -> (r: bool)
        ensures
            r == has_session(self@.sessions, id),
    {
        let n = self.sessions.len();
        let mut i: usize = 0;
        while i < n
            invariant
                i <= n,
                n == self.sessions@.len(),
                self@.sessions == self.sessions@.map_values(|s: Session| s@),
                forall|j: int| 0 <= j < i ==> #[trigger] self@.sessions[j].id != id,
            decreases n - i,
        {
            if self.sessions[i].id == id {
                assert(self@.sessions[i as int].id == id);
                return true;
            }
            i += 1;
        }
        false
    }

    /// The username a session token stands for, if the token is live.
    pub fn session_user(&self, id: u128) -> (r: Option<Vec<u8>>)
        requires
            wf(self@),
        ensures
            match r {
                Some(u) => session_named(self@.sessions, id) matches Some(s) && u@ == s.username,
                None => !has_session(self@.sessions, id),
            },
    {
        let n = self.sessions.len();
        let mut i: usize = 0;
        while i < n
            invariant
                i <= n,
                n == self.sessions@.len(),
                wf(self@),
                self@.sessions == self.sessions@.map_values(|s: Session| s@),
                forall|j: int| 0 <= j < i ==> #[trigger] self@.sessions[j].id != id,
            decreases n - i,
        {
            if self.sessions[i].id == id {
                proof {
                    lemma_session_idx_is(self@.sessions, id, i as int);
                }
                return Some(clone_bytes(&self.sessions[i].username));
            }
            i += 1;
        }
        None
    }

    /// Deletion of the session carrying a token. Idempotent: a token with
    /// no session deletes nothing and is no error.
    pub fn delete_session(&mut self, id: u128)
        requires
            wf(old(self)@),
        ensures
            wf(final(self)@),
            final(self)@.accounts == old(self)@.accounts,
            final(self)@.domains == old(self)@.domains,
            final(self)@.sessions == session_delete(old(self)@.sessions, id),
    {
        let n = self.sessions.len();
        let mut i: usize = 0;
        while i < n
            invariant
                i <= n,
                n == self.sessions@.len(),
                wf(self@),
                self@ == old(self)@,
                self@.sessions == self.sessions@.map_values(|s: Session| s@),
                forall|j: int| 0 <= j < i ==> #[trigger] self@.sessions[j].id != id,
            decreases n - i,
        {
            if self.sessions[i].id == id {
                proof {
                    lemma_session_idx_is(self@.sessions, id, i as int);
                }
                self.sessions.remove(i);
                proof {
                    assert(self@.sessions =~= old(self)@.sessions.remove(i as int));
                    assert(self@.accounts =~= old(self)@.accounts);
                    assert(self@.domains =~= old(self)@.domains);
                    lemma_wf_after_session_remove(old(self)@, i as int);
                }
                return ;
            }
            i += 1;
        }
    }
}

/// The rows owned by one account, in stored order.
pub open spec fn owned_by(owner: Seq<u8>) -> spec_fn(DomainV) -> bool {
    |d: DomainV| d.owner == owner
}

impl Store {
    /// Reserve-or-fail insert of a domain binding with no addresses: the
    /// uniqueness check and the insert are one atomic operation of the
    /// store.
    pub fn insert_domain(&mut self, name: Vec<u8>, owner: Vec<u8>) -> (r: Result<(), ()>)
        requires
            wf(old(self)@),
            name@.len() <= 63,
            has_account(old(self)@.accounts, owner@),
        ensures
            wf(final(self)@),
            final(self)@.accounts == old(self)@.accounts,
            final(self)@.sessions == old(self)@.sessions,
            ({
                let (t, ok) = domain_insert(old(self)@.domains, name@, owner@);
                final(self)@.domains == t && (r is Ok) == ok
            }),
    {
        if self.domain_exists(&name) {
            return Err(());
        }
        let ghost pre = self@;
        let ghost d = DomainV { name: name@, owner: owner@, ipv4: None, ipv6: None };
        self.domains.push(DomainRow { name, owner, ipv4: None, ipv6: None });
        proof {
            assert(self@.domains =~= pre.domains.push(d));
            assert(self@.accounts =~= pre.accounts);
            assert(self@.sessions =~= pre.sessions);
            lemma_wf_after_domain_push(pre, d);
        }
        Ok(())
    }

    /// Whether a binding with this name exists, whoever owns it.
    pub fn domain_exists(&self, name: &Vec<u8>) -> (r: bool)
        ensures
            r == has_domain(self@.domains, name@),
    {
        let n = self.domains.len();
        let mut i: usize = 0;
        while i < n
            invariant
                i <= n,
                n == self.domains@.len(),
                self@.domains == self.domains@.map_values(|d: DomainRow| d@),
                forall|j: int| 0 <= j < i ==> #[trigger] self@.domains[j].name != name@,
            decreases n - i,
        {
            if bytes_eq(&self.domains[i].name, name) {
                assert(self@.domains[i as int].name == name@);
                return true;
            }
            i += 1;
        }
        false
    }

    /// The address columns of the binding with this name, if any.
    pub fn lookup_domain(&self, name: &Vec<u8>) -> (r: Option<(Option<u32>, Option<u128>)>)
        requires
            wf(self@),
        ensures
            match r {
                Some(cols) => domain_named(self@.domains, name@) matches Some(d) && cols.0
                    == d.ipv4 && cols.1 == d.ipv6,
                None => !has_domain(self@.domains, name@),
            },
    {
        let n = self.domains.len();
        let mut i: usize = 0;
        while i < n
            invariant
                i <= n,
                n == self.domains@.len(),
                wf(self@),
                self@.domains == self.domains@.map_values(|d: DomainRow| d@),
                forall|j: int| 0 <= j < i ==> #[trigger] self@.domains[j].name != name@,
            decreases n - i,
        {
            if bytes_eq(&self.domains[i].name, name) {
                proof {
                    lemma_domain_idx_is(self@.domains, name@, i as int);
                }
                return Some((self.domains[i].ipv4, self.domains[i].ipv6));
            }
            i += 1;
        }
        None
    }

    /// Ownership-gated update of one family's address column. The row must
    /// match name *and* owner in the same operation; the returned count
    /// says whether any row was affected, and `0` does not reveal which
    /// condition failed.
    pub fn update_domain_addr(
        &mut self,
        name: &Vec<u8>,
        owner: &Vec<u8>,
        family: Family,
        addr: Option<Address>,
    ) -> (rows: usize)
        requires
            wf(old(self)@),
        ensures
            wf(final(self)@),
            final(self)@.accounts == old(self)@.accounts,
            final(self)@.sessions == old(self)@.sessions,
            ({
                let (t, hit) = domain_update(old(self)@.domains, name@, owner@, family, addr);
                final(self)@.domains == t && rows == (if hit {
                    1usize
                } else {
                    0usize
                })
            }),
    {
        let n = self.domains.len();
        let mut i: usize = 0;
        while i < n
            invariant
                i <= n,
                n == self.domains@.len(),
                wf(self@),
                self@ == old(self)@,
                self@.domains == self.domains@.map_values(|d: DomainRow| d@),
                forall|j: int|
                    0 <= j < i ==> !(#[trigger] self@.domains[j].name == name@
                        && self@.domains[j].owner == owner@),
            decreases n - i,
        {
            if bytes_eq(&self.domains[i].name, name) && bytes_eq(&self.domains[i].owner, owner) {
                proof {
                    lemma_owned_domain_idx_is(self@.domains, name@, owner@, i as int);
                }
                let ghost oldrow = self@.domains[i as int];
                let row = vstd::std_specs::vec::vec_index_mut(&mut self.domains, i);
                match family {
                    Family::V4 => {
                        row.ipv4 = match addr {
                            Some(Address::V4(a)) => Some(a),
                            _ => None,
                        };
                    },
                    Family::V6 => {
                        row.ipv6 = match addr {
                            Some(Address::V6(a)) => Some(a),
                            _ => None,
                        };
                    },
                }
                proof {
                    let row2 = oldrow.set_addr(family, addr);
                    assert(self.domains@[i as int]@ == row2);
                    assert(self@.domains =~= old(self)@.domains.update(i as int, row2));
                    assert(self@.accounts =~= old(self)@.accounts);
                    assert(self@.sessions =~= old(self)@.sessions);
                    lemma_wf_after_domain_update(old(self)@, i as int, row2);
                }
                return 1;
            }
            i += 1;
        }
        0
    }

    /// Ownership-gated deletion of a binding. The row must match name
    /// *and* owner in the same operation; the returned count says whether
    /// any row was affected, and `0` does not reveal which condition
    /// failed.
    pub fn delete_domain_row(&mut self, name: &Vec<u8>, owner: &Vec<u8>) -> (rows: usize)
        requires
            wf(old(self)@),
        ensures
            wf(final(self)@),
            final(self)@.accounts == old(self)@.accounts,
            final(self)@.sessions == old(self)@.sessions,
            ({
                let (t, hit) = domain_delete(old(self)@.domains, name@, owner@);
                final(self)@.domains == t && rows == (if hit {
                    1usize
                } else {
                    0usize
                })
            }),
    {
        let n = self.domains.len();
        let mut i: usize = 0;
        while i < n
            invariant
                i <= n,
                n == self.domains@.len(),
                wf(self@),
                self@ == old(self)@,
                self@.domains == self.domains@.map_values(|d: DomainRow| d@),
                forall|j: int|
                    0 <= j < i ==> !(#[trigger] self@.domains[j].name == name@
                        && self@.domains[j].owner == owner@),
            decreases n - i,
        {
            if bytes_eq(&self.domains[i].name, name) && bytes_eq(&self.domains[i].owner, owner) {
                proof {
                    lemma_owned_domain_idx_is(self@.domains, name@, owner@, i as int);
                }
                self.domains.remove(i);
                proof {
                    assert(self@.domains =~= old(self)@.domains.remove(i as int));
                    assert(self@.accounts =~= old(self)@.accounts);
                    assert(self@.sessions =~= old(self)@.sessions);
                    lemma_wf_after_domain_remove(old(self)@, i as int);
                }
                return 1;
            }
            i += 1;
        }
        0
    }

    /// The bindings owned by one account, in stored order.
    pub fn domains_of_owner(&self, owner: &Vec<u8>) -> (r: Vec<DomainRow>)
        ensures
            r@.map_values(|d: DomainRow| d@) == self@.domains.filter(owned_by(owner@)),
    {
        let n = self.domains.len();
        let mut r: Vec<DomainRow> = Vec::new();
        let mut i: usize = 0;
        while i < n
            invariant
                i <= n,
                n == self.domains@.len(),
                self@.domains == self.domains@.map_values(|d: DomainRow| d@),
                r@.map_values(|d: DomainRow| d@) == self@.domains.take(i as int).filter(
                    owned_by(owner@),
                ),
            decreases n - i,
        {
            let ghost prefix = self@.domains.take(i as int);
            let ghost step = self@.domains.take(i + 1);
            proof {
                assert(step.drop_last() =~= prefix);
                assert(step.last() == self@.domains[i as int]);
                reveal_with_fuel(Seq::filter, 2);
            }
            if bytes_eq(&self.domains[i].owner, owner) {
                let c = clone_domain_row(&self.domains[i]);
                let ghost rv = r@.map_values(|d: DomainRow| d@);
                r.push(c);
                proof {
                    assert(r@.map_values(|d: DomainRow| d@) =~= rv.push(c@));
                    assert(step.filter(owned_by(owner@)) == prefix.filter(owned_by(owner@)).push(
                        self@.domains[i as int],
                    ));
                }
            } else {
                proof {
                    assert(step.filter(owned_by(owner@)) == prefix.filter(owned_by(owner@)));
                }
            }
            i += 1;
        }
        proof {
            assert(self@.domains.take(n as int) =~= self@.domains);
        }
        r
    }
}

/// A fresh copy of a domain row.
fn clone_domain_row(d: &DomainRow) -> (r: DomainRow)
    ensures
        r@ == d@,
{
    DomainRow {
        name: clone_bytes(&d.name),
        owner: clone_bytes(&d.owner),
        ipv4: d.ipv4,
        ipv6: d.ipv6,
    }
}

/// Pushing a fresh binding owned by an existing account keeps the store
/// invariant.
proof fn lemma_wf_after_domain_push(s: StoreV, d: DomainV)
    requires
        wf(s),
        !has_domain(s.domains, d.name),
        has_account(s.accounts, d.owner),
        d.name.len() <= 63,
    ensures
        wf(
            StoreV {
                accounts: s.accounts,
                sessions: s.sessions,
                domains: s.domains.push(d),
            },
        ),
{
    let doms = s.domains.push(d);
    assert forall|i: int, j: int| 0 <= i < j < doms.len() implies doms[i].name != doms[j].name by {
        if j == s.domains.len() {
            if doms[i].name == d.name {
                assert(s.domains[i].name == d.name);
                assert(has_domain(s.domains, d.name));
            }
        }
    }
    assert forall|i: int| 0 <= i < doms.len() implies has_account(
        s.accounts,
        #[trigger] doms[i].owner,
    ) by {
        if i < s.domains.len() {
            assert(has_account(s.accounts, s.domains[i].owner));
        }
    }
    assert forall|i: int| 0 <= i < doms.len() implies (#[trigger] doms[i].name).len() <= 63 by {
        if i < s.domains.len() {
            assert(s.domains[i].name.len() <= 63);
        }
    }
}

/// Replacing a row's address columns, name and owner unchanged, keeps the
/// store invariant.
proof fn lemma_wf_after_domain_update(s: StoreV, k: int, row2: DomainV)
    requires
        wf(s),
        0 <= k < s.domains.len(),
        row2.name == s.domains[k].name,
        row2.owner == s.domains[k].owner,
    ensures
        wf(
            StoreV {
                accounts: s.accounts,
                sessions: s.sessions,
                domains: s.domains.update(k, row2),
            },
        ),
{
    let doms = s.domains.update(k, row2);
    assert forall|i: int, j: int| 0 <= i < j < doms.len() implies doms[i].name != doms[j].name by {
        assert(doms[i].name == s.domains[i].name);
        assert(doms[j].name == s.domains[j].name);
    }
    assert forall|i: int| 0 <= i < doms.len() implies has_account(
        s.accounts,
        #[trigger] doms[i].owner,
    ) by {
        assert(doms[i].owner == s.domains[i].owner);
        assert(has_account(s.accounts, s.domains[i].owner));
    }
    assert forall|i: int| 0 <= i < doms.len() implies (#[trigger] doms[i].name).len() <= 63 by {
        assert(doms[i].name == s.domains[i].name);
    }
}

/// Removing a binding keeps the store invariant.
proof fn lemma_wf_after_domain_remove(s: StoreV, k: int)
    requires
        wf(s),
        0 <= k < s.domains.len(),
    ensures
        wf(
            StoreV {
                accounts: s.accounts,
                sessions: s.sessions,
                domains: s.domains.remove(k),
            },
        ),
{
    let doms = s.domains.remove(k);
    s.domains.remove_ensures(k);
    assert forall|i: int, j: int| 0 <= i < j < doms.len() implies doms[i].name != doms[j].name by {
        let i0: int = if i < k {
            i
        } else {
            i + 1
        };
        let j0: int = if j < k {
            j
        } else {
            j + 1
        };
        assert(doms[i] == s.domains[i0]);
        assert(doms[j] == s.domains[j0]);
    }
    assert forall|i: int| 0 <= i < doms.len() implies has_account(
        s.accounts,
        #[trigger] doms[i].owner,
    ) by {
        let i0: int = if i < k {
            i
        } else {
            i + 1
        };
        assert(doms[i] == s.domains[i0]);
        assert(has_account(s.accounts, s.domains[i0].owner));
    }
    assert forall|i: int| 0 <= i < doms.len() implies (#[trigger] doms[i].name).len() <= 63 by {
        let i0: int = if i < k {
            i
        } else {
            i + 1
        };
        assert(doms[i] == s.domains[i0]);
    }
}

/// Pushing a fresh account keeps the store invariant.
proof fn lemma_wf_after_account_push(s: StoreV, a: AccountV)
    requires
        wf(s),
        !has_account(s.accounts, a.username),
        a.username.len() <= 64,
    ensures
        wf(
            StoreV {
                accounts: s.accounts.push(a),
                sessions: s.sessions,
                domains: s.domains,
            },
        ),
{
    let accs = s.accounts.push(a);
    assert forall|i: int, j: int| 0 <= i < j < accs.len() implies accs[i].username
        != accs[j].username by {
        if j == s.accounts.len() {
            if accs[i].username == a.username {
                assert(s.accounts[i].username == a.username);
                assert(has_account(s.accounts, a.username));
            }
        }
    }
    assert forall|i: int| 0 <= i < s.sessions.len() implies has_account(
        accs,
        #[trigger] s.sessions[i].username,
    ) by {
        lemma_has_account_grow(s.accounts, a, s.sessions[i].username);
    }
    assert forall|i: int| 0 <= i < s.domains.len() implies has_account(
        accs,
        #[trigger] s.domains[i].owner,
    ) by {
        lemma_has_account_grow(s.accounts, a, s.domains[i].owner);
    }
}

/// An account that exists still exists after another is appended.
proof fn lemma_has_account_grow(accounts: Seq<AccountV>, a: AccountV, u: Seq<u8>)
    requires
        has_account(accounts, u),
    ensures
        has_account(accounts.push(a), u),
{
    let i = choose|i: int| 0 <= i < accounts.len() && #[trigger] accounts[i].username == u;
    assert(accounts.push(a)[i].username == u);
}

/// Pushing a session with a fresh token for an existing account keeps the
/// store invariant.
proof fn lemma_wf_after_session_push(s: StoreV, x: SessionV)
    requires
        wf(s),
        !has_session(s.sessions, x.id),
        has_account(s.accounts, x.username),
    ensures
        wf(
            StoreV {
                accounts: s.accounts,
                sessions: s.sessions.push(x),
                domains: s.domains,
            },
        ),
{
    let ses = s.sessions.push(x);
    assert forall|i: int, j: int| 0 <= i < j < ses.len() implies ses[i].id != ses[j].id by {
        if j == s.sessions.len() {
            if ses[i].id == x.id {
                assert(s.sessions[i].id == x.id);
                assert(has_session(s.sessions, x.id));
            }
        }
    }
    assert forall|i: int| 0 <= i < ses.len() implies has_account(
        s.accounts,
        #[trigger] ses[i].username,
    ) by {
        if i < s.sessions.len() {
            assert(has_account(s.accounts, s.sessions[i].username));
        }
    }
}

/// Removing a session keeps the store invariant.
proof fn lemma_wf_after_session_remove(s: StoreV, k: int)
    requires
        wf(s),
        0 <= k < s.sessions.len(),
    ensures
        wf(
            StoreV {
                accounts: s.accounts,
                sessions: s.sessions.remove(k),
                domains: s.domains,
            },
        ),
{
    let ses = s.sessions.remove(k);
    s.sessions.remove_ensures(k);
    assert forall|i: int, j: int| 0 <= i < j < ses.len() implies ses[i].id != ses[j].id by {
        let i0: int = if i < k {
            i
        } else {
            i + 1
        };
        let j0: int = if j < k {
            j
        } else {
            j + 1
        };
        assert(ses[i] == s.sessions[i0]);
        assert(ses[j] == s.sessions[j0]);
    }
    assert forall|i: int| 0 <= i < ses.len() implies has_account(
        s.accounts,
        #[trigger] ses[i].username,
    ) by {
        let i0: int = if i < k {
            i
        } else {
            i + 1
        };
        assert(ses[i] == s.sessions[i0]);
        assert(has_account(s.accounts, s.sessions[i0].username));
    }
}

} // verus!
