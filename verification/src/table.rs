//! A finite map from `u64` keys to values, stored as a vector of key-value
//! pairs with pairwise distinct keys. Fresh keys keep their insertion order,
//! so every query over the pairs has a deterministic answer.

use vstd::prelude::*;

verus! {

/// The map denoted by a sequence of key-value pairs; later pairs win.
pub open spec fn pairs_to_map<V>(s: Seq<(u64, V)>) -> Map<u64, V>
    decreases s.len(),
{
    if s.len() == 0 {
        Map::empty()
    } else {
        pairs_to_map(s.drop_last()).insert(s.last().0, s.last().1)
    }
}

/// No key occurs twice in the sequence.
pub open spec fn distinct_keys<V>(s: Seq<(u64, V)>) -> bool {
    forall|i: int, j: int| 0 <= i < j < s.len() ==> s[i].0 != s[j].0
}

/// A key is in the map exactly when some pair carries it.
pub proof fn lemma_pairs_to_map_contains<V>(s: Seq<(u64, V)>, k: u64)
    ensures
        pairs_to_map(s).contains_key(k) <==> exists|i: int| 0 <= i < s.len() && s[i].0 == k,
    decreases s.len(),
{
    if s.len() == 0 {
    } else {
        lemma_pairs_to_map_contains(s.drop_last(), k);
        if s.last().0 == k {
            assert(s[s.len() - 1].0 == k);
        }
        if exists|i: int| 0 <= i < s.len() && s[i].0 == k {
            let i = choose|i: int| 0 <= i < s.len() && s[i].0 == k;
            if i < s.len() - 1 {
                assert(s.drop_last()[i].0 == k);
            }
        }
    }
}

/// With distinct keys, the pair at any position gives the map's value there.
pub proof fn lemma_pairs_to_map_index<V>(s: Seq<(u64, V)>, i: int)
    requires
        distinct_keys(s),
        0 <= i < s.len(),
    ensures
        pairs_to_map(s).contains_key(s[i].0),
        pairs_to_map(s)[s[i].0] == s[i].1,
    decreases s.len(),
{
    if i == s.len() - 1 {
    } else {
        assert(distinct_keys(s.drop_last())) by {
            assert(forall|p: int, q: int|
                0 <= p < q < s.drop_last().len() ==> s.drop_last()[p] == s[p]
                    && s.drop_last()[q] == s[q]);
        }
        lemma_pairs_to_map_index(s.drop_last(), i);
        assert(s.drop_last()[i] == s[i]);
        assert(s.last().0 != s[i].0);
    }
}

/// Replacing the pair that carries `k` updates the map at `k`.
proof fn lemma_pairs_to_map_update<V>(s: Seq<(u64, V)>, i: int, k: u64, v: V)
    requires
        distinct_keys(s),
        0 <= i < s.len(),
        s[i].0 == k,
    ensures
        pairs_to_map(s.update(i, (k, v))) == pairs_to_map(s).insert(k, v),
        distinct_keys(s.update(i, (k, v))),
    decreases s.len(),
{
    let s2 = s.update(i, (k, v));
    assert(distinct_keys(s2)) by {
        assert(forall|p: int| 0 <= p < s.len() ==> s2[p].0 == s[p].0);
    }
    if i == s.len() - 1 {
        assert(s2.drop_last() =~= s.drop_last());
        assert(s2.last() == (k, v));
        assert(pairs_to_map(s.drop_last()).insert(k, v) =~= pairs_to_map(s).insert(k, v));
    } else {
        assert(distinct_keys(s.drop_last())) by {
            assert(forall|p: int, q: int|
                0 <= p < q < s.drop_last().len() ==> s.drop_last()[p] == s[p]
                    && s.drop_last()[q] == s[q]);
        }
        assert(s.drop_last()[i] == s[i]);
        lemma_pairs_to_map_update(s.drop_last(), i, k, v);
        assert(s2.drop_last() =~= s.drop_last().update(i, (k, v)));
        assert(s2.last() == s.last());
        assert(s.last().0 != k);
        assert(pairs_to_map(s.drop_last()).insert(k, v).insert(s.last().0, s.last().1)
            =~= pairs_to_map(s.drop_last()).insert(s.last().0, s.last().1).insert(k, v));
    }
}

/// Removing the pair that carries `k` removes `k` from the map.
proof fn lemma_pairs_to_map_remove<V>(s: Seq<(u64, V)>, i: int, k: u64)
    requires
        distinct_keys(s),
        0 <= i < s.len(),
        s[i].0 == k,
    ensures
        pairs_to_map(s.remove(i)) == pairs_to_map(s).remove(k),
        distinct_keys(s.remove(i)),
    decreases s.len(),
{
    let s2 = s.remove(i);
    assert(distinct_keys(s2)) by {
        assert(forall|p: int| 0 <= p < s2.len() ==> s2[p] == (if p < i { s[p] } else { s[p + 1] }));
    }
    if i == s.len() - 1 {
        assert(s2 =~= s.drop_last());
        assert(!pairs_to_map(s.drop_last()).contains_key(k)) by {
            lemma_pairs_to_map_contains(s.drop_last(), k);
            assert(forall|p: int| 0 <= p < s.drop_last().len() ==> s.drop_last()[p] == s[p]);
        }
        assert(pairs_to_map(s.drop_last()) =~= pairs_to_map(s.drop_last()).insert(k, s.last().1).remove(k));
    } else {
        assert(distinct_keys(s.drop_last())) by {
            assert(forall|p: int, q: int|
                0 <= p < q < s.drop_last().len() ==> s.drop_last()[p] == s[p]
                    && s.drop_last()[q] == s[q]);
        }
        assert(s.drop_last()[i] == s[i]);
        lemma_pairs_to_map_remove(s.drop_last(), i, k);
        assert(s2.drop_last() =~= s.drop_last().remove(i));
        assert(s2.last() == s.last());
        assert(s.last().0 != k);
        assert(pairs_to_map(s.drop_last()).remove(k).insert(s.last().0, s.last().1)
            =~= pairs_to_map(s.drop_last()).insert(s.last().0, s.last().1).remove(k));
    }
}

/// A sequence without `k` denotes a map without `k`.
proof fn lemma_pairs_to_map_absent<V>(s: Seq<(u64, V)>, k: u64)
    requires
        forall|i: int| 0 <= i < s.len() ==> s[i].0 != k,
    ensures
        pairs_to_map(s).remove(k) == pairs_to_map(s),
        !pairs_to_map(s).contains_key(k),
{
    lemma_pairs_to_map_contains(s, k);
    assert(pairs_to_map(s).remove(k) =~= pairs_to_map(s));
}

/// A finite map from `u64` keys to values of type `V`.
pub struct Table<V> {
    entries: Vec<(u64, V)>,
}

impl<V> View for Table<V> {
    type V = Map<u64, V>;

    open spec fn view(&self) -> Map<u64, V> {
        pairs_to_map(self.kvs())
    }
}

impl<V> Table<V> {
    /// The key-value pairs, fresh keys in insertion order.
    pub closed spec fn kvs(&self) -> Seq<(u64, V)> {
        self.entries@
    }

    #[verifier::type_invariant]
    spec fn wf(&self) -> bool {
        distinct_keys(self.entries@)
    }

    /// The empty map.
    pub fn new() -> (r: Self)
        ensures
            r.kvs() == Seq::<(u64, V)>::empty(),
            r@ == Map::<u64, V>::empty(),
    {
        Table { entries: Vec::new() }
    }

    /// How many keys the map holds.
    pub fn len(&self) -> (r: usize)
        ensures
            r == self.kvs().len(),
    {
        self.entries.len()
    }

    /// The pairs themselves, for iteration; their keys are distinct and
    /// denote exactly this map.
    pub fn pairs(&self) -> (r: &Vec<(u64, V)>)
        ensures
            r@ == self.kvs(),
            distinct_keys(self.kvs()),
    {
        proof {
            use_type_invariant(self);
        }
        &self.entries
    }

    /// Look a key up.
    pub fn get(&self, key: u64) -> (r: Option<&V>)
        ensures
            match r {
                Some(v) => self@.contains_key(key) && *v == self@[key],
                None => !self@.contains_key(key),
            },
    {
        proof {
            use_type_invariant(self);
        }
        let n: usize = self.entries.len();
        let mut i: usize = 0;
        while i < n
            invariant
                i <= n,
                n == self.entries@.len(),
                distinct_keys(self.entries@),
                self@ == pairs_to_map(self.entries@),
                forall|j: int| 0 <= j < i ==> self.entries@[j].0 != key,
            decreases n - i,
        {
            if self.entries[i].0 == key {
                proof {
                    lemma_pairs_to_map_index(self.entries@, i as int);
                }
                return Some(&self.entries[i].1);
            }
            i += 1;
        }
        proof {
            lemma_pairs_to_map_contains(self.entries@, key);
        }
        None
    }

    /// Whether a key is present.
    pub fn contains_key(&self, key: u64) -> (r: bool)
        ensures
            r == self@.contains_key(key),
    {
        self.get(key).is_some()
    }

    /// Insert a pair; an existing entry under the same key is overwritten.
    pub fn insert(&mut self, key: u64, value: V)
        ensures
            final(self)@ == old(self)@.insert(key, value),
    {
        proof {
            use_type_invariant(&*self);
        }
        let mut v: Vec<(u64, V)> = Vec::new();
        std::mem::swap(&mut v, &mut self.entries);
        let ghost s0 = v@;
        let n: usize = v.len();
        let mut i: usize = 0;
        while i < n
            invariant
                i <= n,
                n == v@.len(),
                v@ == s0,
                s0 == old(self).kvs(),
                distinct_keys(s0),
                forall|j: int| 0 <= j < i ==> v@[j].0 != key,
            decreases n - i,
        {
            if v[i].0 == key {
                v[i] = (key, value);
                proof {
                    lemma_pairs_to_map_update(s0, i as int, key, value);
                    assert(v@ == s0.update(i as int, (key, value)));
                    assert(pairs_to_map(v@) == old(self)@.insert(key, value));
                }
                self.entries = v;
                return;
            }
            i += 1;
        }
        v.push((key, value));
        proof {
            assert(v@.drop_last() =~= s0);
            assert(distinct_keys(v@));
        }
        self.entries = v;
    }

    /// Remove a key; absent keys are left alone.
    pub fn remove(&mut self, key: u64)
        ensures
            final(self)@ == old(self)@.remove(key),
    {
        proof {
            use_type_invariant(&*self);
        }
        let mut v: Vec<(u64, V)> = Vec::new();
        std::mem::swap(&mut v, &mut self.entries);
        let ghost s0 = v@;
        let n: usize = v.len();
        let mut i: usize = 0;
        while i < n
            invariant
                i <= n,
                n == v@.len(),
                v@ == s0,
                s0 == old(self).kvs(),
                distinct_keys(s0),
                forall|j: int| 0 <= j < i ==> v@[j].0 != key,
            decreases n - i,
        {
            if v[i].0 == key {
                v.remove(i);
                proof {
                    lemma_pairs_to_map_remove(s0, i as int, key);
                    assert(v@ == s0.remove(i as int));
                    assert(pairs_to_map(v@) == old(self)@.remove(key));
                }
                self.entries = v;
                return;
            }
            i += 1;
        }
        proof {
            lemma_pairs_to_map_absent(s0, key);
        }
        self.entries = v;
    }

    /// Give the pairs up, consuming the map.
    pub fn into_pairs(self) -> (r: Vec<(u64, V)>)
        ensures
            r@ == self.kvs(),
            distinct_keys(r@),
            pairs_to_map(r@) == self@,
    {
        proof {
            use_type_invariant(&self);
        }
        let Table { entries } = self;
        entries
    }
}

impl Table<u64> {
    /// An entry-for-entry copy of a map of plain counters.
    pub fn duplicate(&self) -> (r: Self)
        ensures
            r.kvs() == self.kvs(),
            r@ == self@,
    {
        proof {
            use_type_invariant(self);
        }
        let n: usize = self.entries.len();
        let mut v: Vec<(u64, u64)> = Vec::new();
        let mut i: usize = 0;
        while i < n
            invariant
                i <= n,
                n == self.entries@.len(),
                distinct_keys(self.entries@),
                v@ == self.entries@.take(i as int),
            decreases n - i,
        {
            v.push(self.entries[i]);
            proof {
                assert(v@ =~= self.entries@.take(i as int + 1));
            }
            i += 1;
        }
        proof {
            assert(v@ =~= self.entries@);
        }
        Table { entries: v }
    }
}

} // verus!
