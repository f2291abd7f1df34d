//! A keyed repository backed by a vector of pairs with pairwise-distinct
//! keys, abstracted as a `Map` from keys to values.

use vstd::prelude::*;

verus! {

/// Key types of the repositories: plain values whose executable equality
/// coincides with mathematical equality.
pub trait StoreKey: Sized + Copy {
    fn key_eq(&self, other: &Self) -> (r: bool)
        ensures
            r == (self == other),
    ;
}

impl StoreKey for u32 {
    fn key_eq(&self, other: &Self) -> (r: bool) {
        *self == *other
    }
}

impl StoreKey for u64 {
    fn key_eq(&self, other: &Self) -> (r: bool) {
        *self == *other
    }
}

impl StoreKey for crate::data::H256 {
    fn key_eq(&self, other: &Self) -> (r: bool) {
        *self == *other
    }
}

impl StoreKey for crate::data::OtherAccountId {
    fn key_eq(&self, other: &Self) -> (r: bool) {
        *self == *other
    }
}

/// The map an entry sequence stands for: later entries shadow earlier ones,
/// though stores with distinct keys never rely on the shadowing.
pub open spec fn seq_to_map<K, V>(s: Seq<(K, V)>) -> Map<K, V>
    decreases s.len(),
{
    if s.len() == 0 {
        Map::empty()
    } else {
        seq_to_map(s.drop_last()).insert(s.last().0, s.last().1)
    }
}

/// No two entries share a key.
pub open spec fn distinct_keys<K, V>(s: Seq<(K, V)>) -> bool {
    forall|i: int, j: int| 0 <= i < j < s.len() ==> s[i].0 != s[j].0
}

/// A key is in the map's domain exactly when some entry holds it.
pub proof fn lemma_map_domain<K, V>(s: Seq<(K, V)>)
    ensures
        forall|k: K|
            seq_to_map(s).dom().contains(k) <==> exists|i: int| 0 <= i < s.len() && s[i].0 == k,
    decreases s.len(),
{
    if s.len() > 0 {
        lemma_map_domain(s.drop_last());
        assert forall|k: K| seq_to_map(s).dom().contains(k) implies exists|i: int|
            0 <= i < s.len() && s[i].0 == k by {
            if k == s.last().0 {
                assert(s[s.len() - 1].0 == k);
            } else {
                assert(seq_to_map(s.drop_last()).dom().contains(k));
                let i = choose|i: int| 0 <= i < s.drop_last().len() && s.drop_last()[i].0 == k;
                assert(s[i].0 == k);
            }
        }
        assert forall|k: K| (exists|i: int| 0 <= i < s.len() && s[i].0 == k) implies seq_to_map(
            s,
        ).dom().contains(k) by {
            let i = choose|i: int| 0 <= i < s.len() && s[i].0 == k;
            if i < s.len() - 1 {
                assert(0 <= i < s.drop_last().len() && s.drop_last()[i].0 == k);
                assert(seq_to_map(s.drop_last()).dom().contains(k));
            } else {
                assert(k == s.last().0);
            }
        }
    }
}

/// With distinct keys, the entry at `i` gives the map's value at its key.
pub proof fn lemma_map_get<K, V>(s: Seq<(K, V)>, i: int)
    requires
        distinct_keys(s),
        0 <= i < s.len(),
    ensures
        seq_to_map(s).dom().contains(s[i].0),
        seq_to_map(s)[s[i].0] == s[i].1,
    decreases s.len(),
{
    if i == s.len() - 1 {
    } else {
        assert(distinct_keys(s.drop_last()));
        assert(s.drop_last()[i] == s[i]);
        lemma_map_get(s.drop_last(), i);
        assert(s[i].0 != s.last().0);
    }
}

/// Appending an entry inserts its key.
pub proof fn lemma_map_push<K, V>(s: Seq<(K, V)>, k: K, v: V)
    ensures
        seq_to_map(s.push((k, v))) == seq_to_map(s).insert(k, v),
{
    assert(s.push((k, v)).drop_last() =~= s);
    assert(s.push((k, v)).last() == (k, v));
}

/// With distinct keys, dropping the entry at `i` removes its key.
pub proof fn lemma_map_remove_at<K, V>(s: Seq<(K, V)>, i: int)
    requires
        distinct_keys(s),
        0 <= i < s.len(),
    ensures
        distinct_keys(s.remove(i)),
        seq_to_map(s.remove(i)) == seq_to_map(s).remove(s[i].0),
    decreases s.len(),
{
    assert(distinct_keys(s.remove(i)));
    if i == s.len() - 1 {
        assert(s.remove(i) =~= s.drop_last());
        lemma_map_domain(s.drop_last());
        assert(!seq_to_map(s.drop_last()).dom().contains(s[i].0));
        assert(seq_to_map(s.drop_last()) =~= seq_to_map(s).remove(s[i].0));
    } else {
        assert(distinct_keys(s.drop_last()));
        lemma_map_remove_at(s.drop_last(), i);
        assert(s.remove(i).drop_last() =~= s.drop_last().remove(i));
        assert(s.remove(i).last() == s.last());
        assert(s.drop_last()[i] == s[i]);
        assert(s[i].0 != s.last().0);
        assert(seq_to_map(s.drop_last()).remove(s[i].0).insert(s.last().0, s.last().1)
            =~= seq_to_map(s.drop_last()).insert(s.last().0, s.last().1).remove(s[i].0));
    }
}

/// With distinct keys, the map has exactly one key per entry.
pub proof fn lemma_map_card<K, V>(s: Seq<(K, V)>)
    requires
        distinct_keys(s),
    ensures
        seq_to_map(s).dom().finite(),
        seq_to_map(s).dom().len() == s.len(),
    decreases s.len(),
{
    if s.len() > 0 {
        assert(distinct_keys(s.drop_last()));
        lemma_map_card(s.drop_last());
        lemma_map_domain(s.drop_last());
        assert(!seq_to_map(s.drop_last()).dom().contains(s.last().0));
        assert(seq_to_map(s).dom() =~= seq_to_map(s.drop_last()).dom().insert(s.last().0));
    }
}

/// A keyed repository: a vector of pairs with pairwise-distinct keys.
#[verifier::reject_recursive_types(K)]
pub struct AssocMap<K, V> {
    pairs: Vec<(K, V)>,
}

impl<K: StoreKey, V> View for AssocMap<K, V> {
    type V = Map<K, V>;

    open spec fn view(&self) -> Map<K, V> {
        seq_to_map(self.entries())
    }
}

impl<K: StoreKey, V> AssocMap<K, V> {
    /// The backing entries, in insertion order.
    pub closed spec fn entries(self) -> Seq<(K, V)> {
        self.pairs@
    }

    pub open spec fn wf(self) -> bool {
        distinct_keys(self.entries())
    }

    pub fn new() -> (r: Self)
        ensures
            r.wf(),
            r@ == Map::<K, V>::empty(),
            r.entries() == Seq::<(K, V)>::empty(),
    {
        AssocMap { pairs: Vec::new() }
    }

    /// How many entries the store holds; with distinct keys, the size of the
    /// map's domain.
    pub fn len(&self) -> (n: usize)
        ensures
            n == self.entries().len(),
            self.wf() ==> n == self@.dom().len(),
    {
        proof {
            if self.wf() {
                lemma_map_card(self.entries());
            }
        }
        self.pairs.len()
    }

    /// The entry at position `i`.
    pub fn entry_at(&self, i: usize) -> (e: &(K, V))
        requires
            i < self.entries().len(),
        ensures
            *e == self.entries()[i as int],
    {
        &self.pairs[i]
    }

    /// The position of the entry holding `k`, if any.
    pub fn index_of(&self, k: &K) -> (r: Option<usize>)
        requires
            self.wf(),
        ensures
            match r {
                Some(i) => i < self.entries().len() && self.entries()[i as int].0 == *k
                    && self@.dom().contains(*k) && self@[*k] == self.entries()[i as int].1,
                None => !self@.dom().contains(*k),
            },
    {
        let n = self.pairs.len();
        for i in 0..n
            invariant
                n == self.entries().len(),
                self.wf(),
                forall|j: int| 0 <= j < i ==> self.entries()[j].0 != *k,
        {
            if self.pairs[i].0.key_eq(k) {
                proof {
                    lemma_map_get(self.entries(), i as int);
                }
                return Some(i);
            }
        }
        proof {
            lemma_map_domain(self.entries());
        }
        None
    }

    pub fn contains_key(&self, k: &K) -> (r: bool)
        requires
            self.wf(),
        ensures
            r == self@.dom().contains(*k),
    {
        self.index_of(k).is_some()
    }

    pub fn get(&self, k: &K) -> (r: Option<&V>)
        requires
            self.wf(),
        ensures
            match r {
                Some(v) => self@.dom().contains(*k) && *v == self@[*k],
                None => !self@.dom().contains(*k),
            },
    {
        match self.index_of(k) {
            Some(i) => Some(&self.pairs[i].1),
            None => None,
        }
    }

    /// Binds `k` to `v`, replacing any earlier binding.
    pub fn insert(&mut self, k: K, v: V)
        requires
            old(self).wf(),
        ensures
            final(self).wf(),
            final(self)@ == old(self)@.insert(k, v),
    {
        let ghost s0 = self.entries();
        match self.index_of(&k) {
            Some(i) => {
                proof {
                    lemma_map_remove_at(s0, i as int);
                }
                self.pairs.remove(i);
                let ghost s1 = self.entries();
                self.pairs.push((k, v));
                proof {
                    lemma_map_push(s1, k, v);
                    lemma_map_domain(s1);
                    assert(forall|j: int| 0 <= j < s1.len() ==> s1[j].0 != k);
                    assert(distinct_keys(s1.push((k, v))));
                    assert(seq_to_map(s1).insert(k, v) =~= seq_to_map(s0).insert(k, v));
                }
            },
            None => {
                self.pairs.push((k, v));
                proof {
                    lemma_map_push(s0, k, v);
                    lemma_map_domain(s0);
                    assert(distinct_keys(s0.push((k, v))));
                }
            },
        }
    }

    /// Takes the value bound to `k` out of the store, if any.
    pub fn remove_take(&mut self, k: &K) -> (r: Option<V>)
        requires
            old(self).wf(),
        ensures
            final(self).wf(),
            match r {
                Some(v) => old(self)@.dom().contains(*k) && v == old(self)@[*k] && final(self)@
                    == old(self)@.remove(*k),
                None => !old(self)@.dom().contains(*k) && *final(self) == *old(self),
            },
    {
        let ghost s0 = self.entries();
        match self.index_of(k) {
            Some(i) => {
                proof {
                    lemma_map_remove_at(s0, i as int);
                }
                let entry = self.pairs.remove(i);
                Some(entry.1)
            },
            None => None,
        }
    }

    /// Drops the binding of `k`, if any.
    pub fn remove_key(&mut self, k: &K)
        requires
            old(self).wf(),
        ensures
            final(self).wf(),
            final(self)@ == old(self)@.remove(*k),
    {
        let ghost s0 = self.entries();
        match self.index_of(k) {
            Some(i) => {
                proof {
                    lemma_map_remove_at(s0, i as int);
                }
                self.pairs.remove(i);
            },
            None => {
                proof {
                    lemma_map_domain(s0);
                    assert(seq_to_map(s0).remove(*k) =~= seq_to_map(s0));
                }
            },
        }
    }
}

} // verus!
