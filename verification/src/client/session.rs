//! What a session remembers: the datacenter of the account, and the
//! authorization key of every datacenter it has been bound to.

use crate::client::types::Address;
use crate::client::types::AuthKey;
use vstd::prelude::*;

verus! {

/// The state of a session.
#[derive(Debug)]
pub struct Session {
    user_dc: Option<(i32, Address)>,
    auth_keys: Vec<(i32, AuthKey)>,
}

/// `Session` as a mathematical value.
pub struct SessionView {
    /// The datacenter of the account and its address.
    pub user_dc: Option<(i32, Address)>,
    /// The authorization key of every datacenter that has one.
    pub auth_keys: Map<i32, AuthKey>,
}

/// The map that holds the first `n` of `entries`.
pub open spec fn keys_map(entries: Seq<(i32, AuthKey)>, n: int) -> Map<i32, AuthKey>
    decreases n,
{
    if n <= 0 {
        Map::empty()
    } else {
        keys_map(entries, n - 1).insert(entries[n - 1].0, entries[n - 1].1)
    }
}

/// Whether no datacenter occurs twice in `entries`.
pub open spec fn distinct_keys(entries: Seq<(i32, AuthKey)>) -> bool {
    forall|i: int, j: int| 0 <= i < j < entries.len() ==> entries[i].0 != entries[j].0
}

proof fn lemma_keys_map_domain(entries: Seq<(i32, AuthKey)>, n: int, dc_id: i32)
    requires
        0 <= n <= entries.len(),
    ensures
        keys_map(entries, n).contains_key(dc_id) <==> exists|i: int|
            0 <= i < n && entries[i].0 == dc_id,
    decreases n,
{
    if n > 0 {
        lemma_keys_map_domain(entries, n - 1, dc_id);
        if entries[n - 1].0 == dc_id {
        }
    }
}

proof fn lemma_keys_map_lookup(entries: Seq<(i32, AuthKey)>, n: int, i: int)
    requires
        distinct_keys(entries),
        0 <= i < n <= entries.len(),
    ensures
        keys_map(entries, n).contains_key(entries[i].0),
        keys_map(entries, n)[entries[i].0] == entries[i].1,
    decreases n,
{
    if i < n - 1 {
        lemma_keys_map_lookup(entries, n - 1, i);
    }
}

proof fn lemma_keys_map_update(
    before: Seq<(i32, AuthKey)>,
    after: Seq<(i32, AuthKey)>,
    n: int,
    i: int,
)
    requires
        distinct_keys(before),
        0 <= i < before.len(),
        0 <= n <= before.len(),
        after == before.update(i, (before[i].0, after[i].1)),
    ensures
        keys_map(after, n) == if i < n {
            keys_map(before, n).insert(before[i].0, after[i].1)
        } else {
            keys_map(before, n)
        },
    decreases n,
{
    if n > 0 {
        lemma_keys_map_update(before, after, n - 1, i);
        if i < n - 1 {
            assert(keys_map(after, n) =~= keys_map(before, n).insert(before[i].0, after[i].1));
        } else if i == n - 1 {
            assert(keys_map(after, n) =~= keys_map(before, n).insert(before[i].0, after[i].1));
        }
    }
}

proof fn lemma_keys_map_same(a: Seq<(i32, AuthKey)>, b: Seq<(i32, AuthKey)>, n: int)
    requires
        0 <= n <= a.len(),
        n <= b.len(),
        forall|i: int| 0 <= i < n ==> a[i] == b[i],
    ensures
        keys_map(a, n) == keys_map(b, n),
    decreases n,
{
    if n > 0 {
        lemma_keys_map_same(a, b, n - 1);
    }
}

impl View for Session {
    type V = SessionView;

    closed spec fn view(&self) -> SessionView {
        SessionView {
            user_dc: self.user_dc,
            auth_keys: keys_map(self.auth_keys@, self.auth_keys@.len() as int),
        }
    }
}

impl Clone for Session {
    #[verifier::loop_isolation(false)]
    fn clone(&self) -> (copy: Session)
        ensures
            copy@ == self@,
    {
        proof {
            use_type_invariant(self);
        }
        let mut keys: Vec<(i32, AuthKey)> = Vec::new();
        let mut i: usize = 0;
        while i < self.auth_keys.len()
            invariant
                i <= self.auth_keys@.len(),
                keys@ == self.auth_keys@.take(i as int),
            decreases self.auth_keys@.len() - i,
        {
            keys.push(self.auth_keys[i]);
            assert(keys@ =~= self.auth_keys@.take(i + 1));
            i = i + 1;
        }
        assert(keys@ =~= self.auth_keys@);
        Session { user_dc: self.user_dc, auth_keys: keys }
    }
}

impl Session {
    #[verifier::type_invariant]
    spec fn well_formed(self) -> bool {
        distinct_keys(self.auth_keys@)
    }

    /// A session that remembers nothing.
    pub fn new() -> (session: Session)
        ensures
            session@.user_dc is None,
            session@.auth_keys == Map::<i32, AuthKey>::empty(),
    {
        Session { user_dc: None, auth_keys: Vec::new() }
    }

    /// The datacenter of the account and its address, if the session is
    /// bound to one.
    pub fn get_user_datacenter(&self) -> (dc: Option<(i32, Address)>)
        ensures
            dc == self@.user_dc,
    {
        self.user_dc
    }

    /// Binds the session to a datacenter.
    pub fn set_user_datacenter(&mut self, dc_id: i32, address: &Address)
        ensures
            final(self)@.user_dc == Some((dc_id, *address)),
            final(self)@.auth_keys == old(self)@.auth_keys,
    {
        proof {
            use_type_invariant(&*self);
        }
        self.user_dc = Some((dc_id, *address));
    }

    /// The authorization key of a datacenter, if the session has one.
    #[verifier::loop_isolation(false)]
    pub fn get_auth_key_data(&self, dc_id: i32) -> (key: Option<AuthKey>)
        ensures
            key == if self@.auth_keys.contains_key(dc_id) {
                Some(self@.auth_keys[dc_id])
            } else {
                None
            },
    {
        proof {
            use_type_invariant(self);
            lemma_keys_map_domain(self.auth_keys@, self.auth_keys@.len() as int, dc_id);
        }
        let mut i: usize = 0;
        while i < self.auth_keys.len()
            invariant
                i <= self.auth_keys@.len(),
                distinct_keys(self.auth_keys@),
                forall|j: int| 0 <= j < i ==> self.auth_keys@[j].0 != dc_id,
            decreases self.auth_keys@.len() - i,
        {
            if self.auth_keys[i].0 == dc_id {
                proof {
                    lemma_keys_map_lookup(
                        self.auth_keys@,
                        self.auth_keys@.len() as int,
                        i as int,
                    );
                }
                return Some(self.auth_keys[i].1);
            }
            i = i + 1;
        }
        None
    }

    /// Remembers the authorization key of a datacenter, in place of the one
    /// it had.
    #[verifier::loop_isolation(false)]
    pub fn set_auth_key_data(&mut self, dc_id: i32, key: &AuthKey)
        ensures
            final(self)@.user_dc == old(self)@.user_dc,
            final(self)@.auth_keys == old(self)@.auth_keys.insert(dc_id, *key),
    {
        proof {
            use_type_invariant(&*self);
        }
        let ghost before = self.auth_keys@;
        let mut i: usize = 0;
        while i < self.auth_keys.len()
            invariant
                i <= self.auth_keys@.len(),
                self.auth_keys@ == before,
                self.user_dc == old(self).user_dc,
                distinct_keys(before),
                forall|j: int| 0 <= j < i ==> before[j].0 != dc_id,
            decreases self.auth_keys@.len() - i,
        {
            if self.auth_keys[i].0 == dc_id {
                let mut keys = Vec::new();
                core::mem::swap(&mut keys, &mut self.auth_keys);
                keys[i] = (dc_id, *key);
                proof {
                    lemma_keys_map_update(before, keys@, before.len() as int, i as int);
                    assert(distinct_keys(keys@));
                }
                self.auth_keys = keys;
                return ;
            }
            i = i + 1;
        }
        let mut keys = Vec::new();
        core::mem::swap(&mut keys, &mut self.auth_keys);
        keys.push((dc_id, *key));
        proof {
            lemma_keys_map_same(before, keys@, before.len() as int);
            assert(distinct_keys(keys@));
        }
        self.auth_keys = keys;
    }
}

} // verus!
