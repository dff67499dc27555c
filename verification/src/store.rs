//! Insertion-ordered, verified key-value collections.
//!
//! The ledger's persistent collections are modelled as vectors of pairs with
//! pairwise-distinct keys. Iteration order is insertion order, which is what
//! the enumeration entry points expose. Each collection remembers the
//! storage-key prefix it was created under (see the key deriver), mirroring
//! the namespacing of the host's persistent collections.

use vstd::prelude::*;

verus! {

/// A map from string keys to values of type `V`, with distinct keys and
/// insertion-ordered entries.
pub struct StrMap<V> {
    /// Storage-key namespace this collection was created under.
    pub key_prefix: Vec<u8>,
    /// The entries, in insertion order.
    pub pairs: Vec<(String, V)>,
}

impl<V> View for StrMap<V> {
    type V = Seq<(Seq<char>, V)>;

    open spec fn view(&self) -> Seq<(Seq<char>, V)> {
        self.pairs@.map_values(|p: (String, V)| (p.0@, p.1))
    }
}

impl<V> StrMap<V> {
    /// Keys are pairwise distinct.
    pub open spec fn wf(&self) -> bool {
        forall|i: int, j: int|
            0 <= i < j < self@.len() ==> (#[trigger] self@[i]).0 != (#[trigger] self@[j]).0
    }

    /// Whether some entry has key `k`.
    pub open spec fn has_key(&self, k: Seq<char>) -> bool {
        exists|i: int| 0 <= i < self@.len() && (#[trigger] self@[i]).0 == k
    }

    /// The position of the entry with key `k` (meaningful when `has_key`).
    pub open spec fn idx_of(&self, k: Seq<char>) -> int {
        choose|i: int| 0 <= i < self@.len() && (#[trigger] self@[i]).0 == k
    }

    /// The value stored under key `k` (meaningful when `has_key`).
    pub open spec fn val(&self, k: Seq<char>) -> V {
        self@[self.idx_of(k)].1
    }

    /// In a well-formed map an entry's position is determined by its key.
    pub proof fn lemma_key_at(&self, i: int)
        requires
            self.wf(),
            0 <= i < self@.len(),
        ensures
            self.has_key(self@[i].0),
            self.idx_of(self@[i].0) == i,
            self.val(self@[i].0) == self@[i].1,
    {
        let k = self@[i].0;
        assert(0 <= i < self@.len() && self@[i].0 == k);
        let j = self.idx_of(k);
        if j != i {
            if j < i {
                assert(self@[j].0 != self@[i].0);
            } else {
                assert(self@[i].0 != self@[j].0);
            }
        }
    }

    /// An empty map under an empty namespace.
    pub fn new() -> (r: Self)
        ensures
            r@.len() == 0,
            r.key_prefix@.len() == 0,
            r.wf(),
    {
        StrMap { key_prefix: Vec::new(), pairs: Vec::new() }
    }

    /// An empty map under the given storage-key namespace.
    pub fn with_prefix(prefix: Vec<u8>) -> (r: Self)
        ensures
            r@.len() == 0,
            r.key_prefix@ == prefix@,
            r.wf(),
    {
        StrMap { key_prefix: prefix, pairs: Vec::new() }
    }

    /// The number of entries.
    pub fn len(&self) -> (r: usize)
        ensures
            r == self@.len(),
    {
        self.pairs.len()
    }

    /// The position of the entry with key `k`, if any.
    fn find_index(&self, k: &String) -> (r: Option<usize>)
        ensures
            (match r {
                Some(i) => 0 <= i < self@.len() && self@[i as int].0 == k@,
                None => !self.has_key(k@),
            }),
    {
        let n = self.pairs.len();
        let mut i: usize = 0;
        while i < n
            invariant
                0 <= i <= n,
                n == self@.len(),
                forall|j: int| 0 <= j < i ==> (#[trigger] self@[j]).0 != k@,
            decreases n - i,
        {
            if self.pairs[i].0 == *k {
                assert(self@[i as int].0 == k@);
                return Some(i);
            }
            i = i + 1;
        }
        None
    }

    /// Whether the map holds an entry for `k`.
    pub fn contains_key(&self, k: &String) -> (r: bool)
        ensures
            r == self.has_key(k@),
    {
        match self.find_index(k) {
            Some(_) => true,
            None => false,
        }
    }

    /// The value stored under `k`, if any.
    pub fn get(&self, k: &String) -> (r: Option<&V>)
        requires
            self.wf(),
        ensures
            r is Some <==> self.has_key(k@),
            (match r {
                Some(v) => *v == self.val(k@),
                None => !self.has_key(k@),
            }),
    {
        match self.find_index(k) {
            Some(i) => {
                proof {
                    self.lemma_key_at(i as int);
                }
                Some(&self.pairs[i].1)
            },
            None => None,
        }
    }

    /// Stores `v` under `k`, replacing (in place) an existing entry or
    /// appending a new one. Returns the replaced value, if any.
    pub fn insert(&mut self, k: String, v: V) -> (prev: Option<V>)
        requires
            old(self).wf(),
        ensures
            final(self).wf(),
            final(self).key_prefix@ == old(self).key_prefix@,
            prev is Some <==> old(self).has_key(k@),
            old(self).has_key(k@) ==> {
                &&& prev == Some(old(self).val(k@))
                &&& final(self)@ == old(self)@.update(old(self).idx_of(k@), (k@, v))
            },
            !old(self).has_key(k@) ==> final(self)@ == old(self)@.push((k@, v)),
            final(self).has_key(k@),
            final(self).val(k@) == v,
    {
        let ghost pre = *self;
        match self.find_index(&k) {
            Some(i) => {
                proof {
                    pre.lemma_key_at(i as int);
                }
                let old_pair = self.pairs.remove(i);
                let ghost kview = k@;
                self.pairs.insert(i, (k, v));
                proof {
                    assert(self@ =~= pre@.update(i as int, (kview, v)));
                    assert(forall|a: int, b: int|
                        0 <= a < b < self@.len() ==> (#[trigger] self@[a]).0 != (
                        #[trigger] self@[b]).0) by {
                        assert(forall|a: int|
                            0 <= a < self@.len() && a != i ==> (#[trigger] self@[a]).0 == pre@[a].0);
                    }
                    final(self).lemma_key_at(i as int);
                }
                Some(old_pair.1)
            },
            None => {
                let ghost kview = k@;
                self.pairs.push((k, v));
                proof {
                    assert(self@ =~= pre@.push((kview, v)));
                    let n = pre@.len() as int;
                    assert(forall|a: int|
                        0 <= a < n ==> (#[trigger] self@[a]).0 == pre@[a].0);
                    assert(forall|a: int| 0 <= a < n ==> (#[trigger] self@[a]).0 != kview);
                    final(self).lemma_key_at(n);
                }
                None
            },
        }
    }

    /// Removes the entry under `k`, shifting later entries down. Returns the
    /// removed value, if any.
    pub fn remove_key(&mut self, k: &String) -> (prev: Option<V>)
        requires
            old(self).wf(),
        ensures
            final(self).wf(),
            final(self).key_prefix@ == old(self).key_prefix@,
            prev is Some <==> old(self).has_key(k@),
            old(self).has_key(k@) ==> {
                &&& prev == Some(old(self).val(k@))
                &&& final(self)@ == old(self)@.remove(old(self).idx_of(k@))
            },
            !old(self).has_key(k@) ==> *final(self) == *old(self),
            !final(self).has_key(k@),
    {
        let ghost pre = *self;
        match self.find_index(k) {
            Some(i) => {
                proof {
                    pre.lemma_key_at(i as int);
                }
                let old_pair = self.pairs.remove(i);
                proof {
                    assert(self@ =~= pre@.remove(i as int));
                    assert forall|a: int|
                        0 <= a < self@.len() implies (#[trigger] self@[a]).0 != k@ by {
                        if a < i {
                            assert(self@[a] == pre@[a]);
                        } else {
                            assert(self@[a] == pre@[a + 1]);
                        }
                    }
                }
                Some(old_pair.1)
            },
            None => None,
        }
    }

    /// Appending an entry under a fresh key leaves every other key's
    /// presence and value unchanged.
    pub proof fn lemma_push_entry(pre: Self, post: Self, a: Seq<char>, v: V)
        requires
            pre.wf(),
            !pre.has_key(a),
            post@ == pre@.push((a, v)),
            post.wf(),
        ensures
            post.has_key(a),
            post.val(a) == v,
            forall|k: Seq<char>| k != a ==> #[trigger] post.has_key(k) == pre.has_key(k),
            forall|k: Seq<char>|
                pre.has_key(k) ==> #[trigger] post.has_key(k) && post.val(k) == pre.val(k),
    {
        let n = pre@.len() as int;
        assert(post@[n] == (a, v));
        post.lemma_key_at(n);
        assert forall|k: Seq<char>| k != a && post.has_key(k) implies pre.has_key(k) by {
            let j = post.idx_of(k);
            assert(post@[j].0 == k);
            assert(j != n);
            assert(pre@[j] == post@[j]);
        }
        assert forall|k: Seq<char>| pre.has_key(k) implies #[trigger] post.has_key(k) && post.val(
            k,
        ) == pre.val(k) by {
            let j = pre.idx_of(k);
            assert(pre@[j].0 == k);
            pre.lemma_key_at(j);
            assert(post@[j] == pre@[j]);
            post.lemma_key_at(j);
        }
    }

    /// Removing the entry under `a` leaves every other key's presence and
    /// value unchanged.
    pub proof fn lemma_remove_entry(pre: Self, post: Self, a: Seq<char>)
        requires
            pre.wf(),
            pre.has_key(a),
            post@ == pre@.remove(pre.idx_of(a)),
            post.wf(),
        ensures
            forall|k: Seq<char>| k != a ==> #[trigger] post.has_key(k) == pre.has_key(k),
            forall|k: Seq<char>|
                k != a && pre.has_key(k) ==> #[trigger] post.val(k) == pre.val(k),
    {
        let i = pre.idx_of(a);
        assert(0 <= i < pre@.len() && pre@[i].0 == a);
        assert forall|k: Seq<char>| k != a && pre.has_key(k) implies #[trigger] post.has_key(k)
            && post.val(k) == pre.val(k) by {
            let j = pre.idx_of(k);
            assert(pre@[j].0 == k);
            pre.lemma_key_at(j);
            assert(j != i);
            let j2 = if j < i {
                j
            } else {
                j - 1
            };
            assert(post@[j2] == pre@[j]);
            post.lemma_key_at(j2);
        }
        assert forall|k: Seq<char>| k != a && post.has_key(k) implies pre.has_key(k) by {
            let j = post.idx_of(k);
            assert(post@[j].0 == k);
            let j2 = if j < i {
                j
            } else {
                j + 1
            };
            assert(pre@[j2] == post@[j]);
        }
        assert forall|k: Seq<char>| k != a && pre.has_key(k) implies #[trigger] post.val(k)
            == pre.val(k) by {
            assert(post.has_key(k));
        }
    }

    /// Replacing the entry under `a` in place leaves every other key's
    /// presence and value unchanged.
    pub proof fn lemma_update_entry(pre: Self, post: Self, a: Seq<char>, v: V)
        requires
            pre.wf(),
            pre.has_key(a),
            post@ == pre@.update(pre.idx_of(a), (a, v)),
            post.wf(),
        ensures
            post.has_key(a),
            post.val(a) == v,
            post@.len() == pre@.len(),
            forall|k: Seq<char>| k != a ==> #[trigger] post.has_key(k) == pre.has_key(k),
            forall|k: Seq<char>|
                k != a && pre.has_key(k) ==> #[trigger] post.val(k) == pre.val(k),
    {
        let i = pre.idx_of(a);
        assert(0 <= i < pre@.len() && pre@[i].0 == a);
        assert(post@[i] == (a, v));
        post.lemma_key_at(i);
        assert forall|k: Seq<char>| k != a && pre.has_key(k) implies #[trigger] post.has_key(k)
            && post.val(k) == pre.val(k) by {
            let j = pre.idx_of(k);
            assert(pre@[j].0 == k);
            pre.lemma_key_at(j);
            assert(j != i);
            assert(post@[j] == pre@[j]);
            post.lemma_key_at(j);
        }
        assert forall|k: Seq<char>| k != a && post.has_key(k) implies pre.has_key(k) by {
            let j = post.idx_of(k);
            assert(post@[j].0 == k);
            assert(j != i);
            assert(pre@[j] == post@[j]);
        }
        assert forall|k: Seq<char>| k != a && pre.has_key(k) implies #[trigger] post.val(k)
            == pre.val(k) by {
            assert(post.has_key(k));
        }
    }

    /// The entry at position `i`, in insertion order.
    pub fn at(&self, i: usize) -> (r: &(String, V))
        requires
            i < self@.len(),
        ensures
            r.0@ == self@[i as int].0,
            r.1 == self@[i as int].1,
    {
        &self.pairs[i]
    }
}

/// A set of string identifiers with insertion-ordered, pairwise-distinct
/// elements.
pub struct StrSet {
    /// Storage-key namespace this collection was created under.
    pub key_prefix: Vec<u8>,
    /// The members, in insertion order.
    pub items: Vec<String>,
}

impl View for StrSet {
    type V = Seq<Seq<char>>;

    open spec fn view(&self) -> Seq<Seq<char>> {
        self.items@.map_values(|s: String| s@)
    }
}

impl StrSet {
    /// Members are pairwise distinct.
    pub open spec fn wf(&self) -> bool {
        forall|i: int, j: int|
            0 <= i < j < self@.len() ==> #[trigger] self@[i] != #[trigger] self@[j]
    }

    /// Whether `k` is a member.
    pub open spec fn has(&self, k: Seq<char>) -> bool {
        exists|i: int| 0 <= i < self@.len() && #[trigger] self@[i] == k
    }

    /// The position of member `k` (meaningful when `has`).
    pub open spec fn idx_of(&self, k: Seq<char>) -> int {
        choose|i: int| 0 <= i < self@.len() && #[trigger] self@[i] == k
    }

    /// In a well-formed set a member's position is determined by its text.
    pub proof fn lemma_member_at(&self, i: int)
        requires
            self.wf(),
            0 <= i < self@.len(),
        ensures
            self.has(self@[i]),
            self.idx_of(self@[i]) == i,
    {
        let k = self@[i];
        assert(0 <= i < self@.len() && self@[i] == k);
        let j = self.idx_of(k);
        if j != i {
            if j < i {
                assert(self@[j] != self@[i]);
            } else {
                assert(self@[i] != self@[j]);
            }
        }
    }

    /// An empty set under the given storage-key namespace.
    pub fn with_prefix(prefix: Vec<u8>) -> (r: Self)
        ensures
            r@.len() == 0,
            r.key_prefix@ == prefix@,
            r.wf(),
    {
        StrSet { key_prefix: prefix, items: Vec::new() }
    }

    /// The number of members.
    pub fn len(&self) -> (r: usize)
        ensures
            r == self@.len(),
    {
        self.items.len()
    }

    /// The position of member `k`, if present.
    fn find_index(&self, k: &String) -> (r: Option<usize>)
        ensures
            (match r {
                Some(i) => 0 <= i < self@.len() && self@[i as int] == k@,
                None => !self.has(k@),
            }),
    {
        let n = self.items.len();
        let mut i: usize = 0;
        while i < n
            invariant
                0 <= i <= n,
                n == self@.len(),
                forall|j: int| 0 <= j < i ==> #[trigger] self@[j] != k@,
            decreases n - i,
        {
            if self.items[i] == *k {
                return Some(i);
            }
            i = i + 1;
        }
        None
    }

    /// Adds `k` at the end unless it is already a member. Returns whether the
    /// set grew.
    pub fn insert(&mut self, k: String) -> (added: bool)
        requires
            old(self).wf(),
        ensures
            final(self).wf(),
            final(self).key_prefix@ == old(self).key_prefix@,
            added == !old(self).has(k@),
            added ==> final(self)@ == old(self)@.push(k@),
            !added ==> *final(self) == *old(self),
            final(self).has(k@),
    {
        let ghost pre = *self;
        match self.find_index(&k) {
            Some(_) => false,
            None => {
                let ghost kview = k@;
                self.items.push(k);
                proof {
                    assert(self@ =~= pre@.push(kview));
                    let n = pre@.len() as int;
                    assert(forall|a: int| 0 <= a < n ==> #[trigger] self@[a] == pre@[a]);
                    final(self).lemma_member_at(n);
                }
                true
            },
        }
    }

    /// Removes `k`, shifting later members down. Returns whether it was a
    /// member.
    pub fn remove(&mut self, k: &String) -> (removed: bool)
        requires
            old(self).wf(),
        ensures
            final(self).wf(),
            final(self).key_prefix@ == old(self).key_prefix@,
            removed == old(self).has(k@),
            removed ==> final(self)@ == old(self)@.remove(old(self).idx_of(k@)),
            !removed ==> *final(self) == *old(self),
            !final(self).has(k@),
    {
        let ghost pre = *self;
        match self.find_index(k) {
            Some(i) => {
                proof {
                    pre.lemma_member_at(i as int);
                }
                self.items.remove(i);
                proof {
                    assert(self@ =~= pre@.remove(i as int));
                    assert forall|a: int| 0 <= a < self@.len() implies #[trigger] self@[a] != k@ by {
                        if a < i {
                            assert(self@[a] == pre@[a]);
                        } else {
                            assert(self@[a] == pre@[a + 1]);
                        }
                    }
                }
                true
            },
            None => false,
        }
    }

    /// Appending a fresh member leaves every other member's presence
    /// unchanged.
    pub proof fn lemma_set_push(pre: Self, post: Self, x: Seq<char>)
        requires
            pre.wf(),
            !pre.has(x),
            post@ == pre@.push(x),
        ensures
            forall|m: Seq<char>| #[trigger] post.has(m) == (pre.has(m) || m == x),
    {
        let n = pre@.len() as int;
        assert(post@[n] == x);
        assert forall|m: Seq<char>| #[trigger] post.has(m) implies (pre.has(m) || m == x) by {
            let j = choose|j: int| 0 <= j < post@.len() && post@[j] == m;
            if j < n {
                assert(pre@[j] == post@[j]);
            }
        }
        assert forall|m: Seq<char>| pre.has(m) implies post.has(m) by {
            let j = choose|j: int| 0 <= j < pre@.len() && pre@[j] == m;
            assert(post@[j] == pre@[j]);
        }
    }

    /// Removing a member leaves every other member's presence unchanged.
    pub proof fn lemma_set_remove(pre: Self, post: Self, x: Seq<char>)
        requires
            pre.wf(),
            pre.has(x),
            post@ == pre@.remove(pre.idx_of(x)),
        ensures
            forall|m: Seq<char>| m != x ==> #[trigger] post.has(m) == pre.has(m),
    {
        let i = pre.idx_of(x);
        assert(0 <= i < pre@.len() && pre@[i] == x);
        assert forall|m: Seq<char>| m != x && pre.has(m) implies #[trigger] post.has(m) by {
            let j = choose|j: int| 0 <= j < pre@.len() && pre@[j] == m;
            assert(j != i);
            let j2 = if j < i {
                j
            } else {
                j - 1
            };
            assert(post@[j2] == pre@[j]);
        }
        assert forall|m: Seq<char>| m != x && post.has(m) implies pre.has(m) by {
            let j = choose|j: int| 0 <= j < post@.len() && post@[j] == m;
            let j2 = if j < i {
                j
            } else {
                j + 1
            };
            assert(pre@[j2] == post@[j]);
        }
    }

    /// Whether the set has no members.
    pub fn is_empty(&self) -> (r: bool)
        ensures
            r == (self@.len() == 0),
    {
        self.items.len() == 0
    }

    /// The member at position `i`, in insertion order.
    pub fn at(&self, i: usize) -> (r: &String)
        requires
            i < self@.len(),
        ensures
            r@ == self@[i as int],
    {
        &self.items[i]
    }

    /// A fresh vector holding copies of the members, in order.
    pub fn to_vec(&self) -> (r: Vec<String>)
        ensures
            r@.len() == self@.len(),
            forall|i: int| 0 <= i < r@.len() ==> (#[trigger] r@[i])@ == self@[i],
    {
        let n = self.items.len();
        let mut r: Vec<String> = Vec::new();
        let mut i: usize = 0;
        while i < n
            invariant
                0 <= i <= n,
                n == self@.len(),
                r@.len() == i,
                forall|j: int| 0 <= j < i ==> (#[trigger] r@[j])@ == self@[j],
            decreases n - i,
        {
            r.push(self.items[i].clone());
            i = i + 1;
        }
        r
    }
}

} // verus!
