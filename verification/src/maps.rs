//! Constructors for keyed containers built from a literal list of pairs:
//! an unordered hash map, and an ordered map kept as a vector of pairs
//! sorted by strictly increasing key. Pairs are inserted in list order, so
//! a later pair with a key seen before replaces the earlier value.

use vstd::prelude::*;
use std::collections::HashMap;

verus! {

broadcast use vstd::std_specs::hash::group_hash_axioms;

/// The map described by a list of key-value pairs: the pairs are taken in
/// order, a later pair with a key seen before replacing the earlier value.
pub open spec fn map_of_pairs(pairs: Seq<(u64, u64)>) -> Map<u64, u64>
    decreases pairs.len(),
{
    if pairs.len() == 0 {
        Map::empty()
    } else {
        map_of_pairs(pairs.drop_last()).insert(pairs.last().0, pairs.last().1)
    }
}

/// Placing a pair at position `i` acts on the map as one insertion, as long
/// as no pair from position `i` on carries the same key.
proof fn lemma_map_of_pairs_insert_at(s: Seq<(u64, u64)>, i: int, p: (u64, u64))
    requires
        0 <= i <= s.len(),
        forall|j: int| i <= j < s.len() ==> (#[trigger] s[j]).0 != p.0,
    ensures
        map_of_pairs(s.insert(i, p)) == map_of_pairs(s).insert(p.0, p.1),
    decreases s.len() - i,
{
    let t = s.insert(i, p);
    if i == s.len() {
        assert(t.drop_last() =~= s);
        assert(t.last() == p);
    } else {
        assert(t.last() == s.last());
        assert(t.drop_last() =~= s.drop_last().insert(i, p));
        lemma_map_of_pairs_insert_at(s.drop_last(), i, p);
        assert(s.last().0 != p.0);
        assert(map_of_pairs(s.drop_last()).insert(p.0, p.1).insert(s.last().0, s.last().1)
            =~= map_of_pairs(s.drop_last()).insert(s.last().0, s.last().1).insert(p.0, p.1));
        assert(map_of_pairs(t) == map_of_pairs(t.drop_last()).insert(t.last().0, t.last().1));
        assert(map_of_pairs(s) == map_of_pairs(s.drop_last()).insert(s.last().0, s.last().1));
    }
}

/// Overwriting the pair at position `i` with an equal-keyed pair acts on
/// the map as one insertion, as long as no later pair carries the same key.
proof fn lemma_map_of_pairs_update_at(s: Seq<(u64, u64)>, i: int, p: (u64, u64))
    requires
        0 <= i < s.len(),
        s[i].0 == p.0,
        forall|j: int| i < j < s.len() ==> (#[trigger] s[j]).0 != p.0,
    ensures
        map_of_pairs(s.update(i, p)) == map_of_pairs(s).insert(p.0, p.1),
    decreases s.len() - i,
{
    let t = s.update(i, p);
    if i == s.len() - 1 {
        assert(t.drop_last() =~= s.drop_last());
        assert(t.last() == p);
        assert(map_of_pairs(s.drop_last()).insert(s.last().0, s.last().1).insert(p.0, p.1)
            =~= map_of_pairs(s.drop_last()).insert(p.0, p.1));
        assert(map_of_pairs(s) == map_of_pairs(s.drop_last()).insert(s.last().0, s.last().1));
    } else {
        assert(t.last() == s.last());
        assert(t.drop_last() =~= s.drop_last().update(i, p));
        lemma_map_of_pairs_update_at(s.drop_last(), i, p);
        assert(s.last().0 != p.0);
        assert(map_of_pairs(s.drop_last()).insert(p.0, p.1).insert(s.last().0, s.last().1)
            =~= map_of_pairs(s.drop_last()).insert(s.last().0, s.last().1).insert(p.0, p.1));
        assert(map_of_pairs(t) == map_of_pairs(t.drop_last()).insert(t.last().0, t.last().1));
        assert(map_of_pairs(s) == map_of_pairs(s.drop_last()).insert(s.last().0, s.last().1));
    }
}

/// The pair at position `i` gives the map's value for its key, as long as
/// no later pair carries the same key.
proof fn lemma_map_of_pairs_get(s: Seq<(u64, u64)>, i: int)
    requires
        0 <= i < s.len(),
        forall|j: int| i < j < s.len() ==> (#[trigger] s[j]).0 != s[i].0,
    ensures
        map_of_pairs(s).contains_key(s[i].0),
        map_of_pairs(s)[s[i].0] == s[i].1,
    decreases s.len(),
{
    if i == s.len() - 1 {
    } else {
        assert(s.last().0 != s[i].0);
        assert(s.drop_last()[i] == s[i]);
        lemma_map_of_pairs_get(s.drop_last(), i);
    }
}

/// A key carried by no pair at all is absent from the map.
proof fn lemma_map_of_pairs_absent(s: Seq<(u64, u64)>, key: u64)
    requires
        forall|j: int| 0 <= j < s.len() ==> (#[trigger] s[j]).0 != key,
    ensures
        !map_of_pairs(s).contains_key(key),
    decreases s.len(),
{
    if s.len() > 0 {
        lemma_map_of_pairs_absent(s.drop_last(), key);
    }
}

/// Builds an unordered hash map from a list of key-value pairs, inserting
/// them in list order.
pub fn hash_map_of(pairs: &Vec<(u64, u64)>) -> (m: HashMap<u64, u64>)
    ensures
        m@ == map_of_pairs(pairs@),
{
    let mut m: HashMap<u64, u64> = HashMap::new();
    proof {
        assert(pairs@.take(0) =~= Seq::<(u64, u64)>::empty());
    }
    let mut i: usize = 0;
    while i < pairs.len()
        invariant
            i <= pairs.len(),
            m@ == map_of_pairs(pairs@.take(i as int)),
        decreases pairs.len() - i,
    {
        let (k, v) = pairs[i];
        m.insert(k, v);
        proof {
            assert(pairs@.take(i as int + 1).drop_last() =~= pairs@.take(i as int));
            assert(pairs@.take(i as int + 1).last() == pairs@[i as int]);
        }
        i = i + 1;
    }
    proof {
        assert(pairs@.take(pairs.len() as int) =~= pairs@);
    }
    m
}

/// An ordered map from keys to values, kept as a vector of pairs sorted by
/// strictly increasing key.
pub struct OrderedMap {
    pairs: Vec<(u64, u64)>,
}

impl OrderedMap {
    /// The stored pairs, in increasing key order.
    pub closed spec fn pair_seq(self) -> Seq<(u64, u64)> {
        self.pairs@
    }

    /// The map this container stands for.
    pub open spec fn as_map(self) -> Map<u64, u64> {
        map_of_pairs(self.pair_seq())
    }

    /// Keys strictly increase along the vector: sorted, no duplicate keys.
    pub open spec fn well_formed(self) -> bool {
        forall|i: int, j: int|
            0 <= i < j < self.pair_seq().len() ==> (#[trigger] self.pair_seq()[i]).0 < (
            #[trigger] self.pair_seq()[j]).0
    }

    /// An empty ordered map.
    pub fn new() -> (r: OrderedMap)
        ensures
            r.well_formed(),
            r.pair_seq() == Seq::<(u64, u64)>::empty(),
    {
        OrderedMap { pairs: Vec::new() }
    }

    /// How many keys the map holds.
    pub fn len(&self) -> (r: usize)
        ensures
            r == self.pair_seq().len(),
    {
        self.pairs.len()
    }

    /// The stored pairs, in increasing key order.
    pub fn entries(&self) -> (r: &Vec<(u64, u64)>)
        ensures
            r@ == self.pair_seq(),
    {
        &self.pairs
    }

    /// Inserts a pair, keeping the keys sorted: an existing binding of the
    /// same key is replaced in place, any other pair enters at its sorted
    /// position.
    pub fn insert(&mut self, key: u64, value: u64)
        requires
            old(self).well_formed(),
        ensures
            final(self).well_formed(),
            final(self).as_map() == old(self).as_map().insert(key, value),
            final(self).pair_seq().len() <= old(self).pair_seq().len() + 1,
    {
        let ghost s = old(self).pair_seq();
        proof {
            assert(s == self.pairs@);
        }
        let n = self.pairs.len();
        let mut i: usize = 0;
        while i < n && self.pairs[i].0 < key
            invariant
                self.pairs@ == s,
                n == s.len(),
                i <= n,
                forall|j: int| 0 <= j < i ==> (#[trigger] s[j]).0 < key,
            decreases n - i,
        {
            i = i + 1;
        }
        if i < n {
            let (k, _) = self.pairs[i];
            if k == key {
                self.pairs.set(i, (key, value));
                proof {
                    assert forall|j: int| i < j < s.len() implies (#[trigger] s[j]).0 != key by {
                        assert(s[i as int].0 < s[j].0);
                    }
                    lemma_map_of_pairs_update_at(s, i as int, (key, value));
                    let t = self.pair_seq();
                    assert(t == s.update(i as int, (key, value)));
                    assert forall|a: int, b: int| 0 <= a < b < t.len() implies (#[trigger] t[a]).0
                        < (#[trigger] t[b]).0 by {
                        assert(s[a].0 < s[b].0);
                        assert(t[a].0 == s[a].0);
                        assert(t[b].0 == s[b].0);
                    }
                }
                return ;
            }
        }
        self.pairs.insert(i, (key, value));
        proof {
            assert forall|j: int| i <= j < s.len() implies key < (#[trigger] s[j]).0 by {
                if j > i {
                    assert(s[i as int].0 < s[j].0);
                }
            }
            lemma_map_of_pairs_insert_at(s, i as int, (key, value));
            s.insert_ensures(i as int, (key, value));
            let t = self.pair_seq();
            assert(t == s.insert(i as int, (key, value)));
            assert forall|a: int, b: int| 0 <= a < b < t.len() implies (#[trigger] t[a]).0 < (
            #[trigger] t[b]).0 by {
                if a < i {
                    assert(t[a] == s[a]);
                    assert(s[a].0 < key);
                } else if a > i {
                    assert(t[a] == s[a - 1]);
                }
                if b < i {
                    assert(t[b] == s[b]);
                } else if b > i {
                    assert(t[b] == s[b - 1]);
                }
                if a > i && b > i {
                    assert(s[a - 1].0 < s[b - 1].0);
                }
                if a < i && b > i && a < b - 1 {
                    assert(s[a].0 < s[b - 1].0);
                }
            }
        }
    }

    /// The value stored under a key, if any.
    pub fn get(&self, key: u64) -> (r: Option<u64>)
        requires
            self.well_formed(),
        ensures
            match r {
                Option::Some(v) => self.as_map().contains_key(key) && self.as_map()[key] == v,
                Option::None => !self.as_map().contains_key(key),
            },
    {
        let ghost s = self.pair_seq();
        proof {
            assert(s == self.pairs@);
        }
        let n = self.pairs.len();
        let mut i: usize = 0;
        while i < n
            invariant
                self.pairs@ == s,
                n == s.len(),
                i <= n,
                forall|a: int, b: int| 0 <= a < b < s.len() ==> (#[trigger] s[a]).0 < (
                #[trigger] s[b]).0,
                forall|j: int| 0 <= j < i ==> (#[trigger] s[j]).0 != key,
            decreases n - i,
        {
            let (k, v) = self.pairs[i];
            if k == key {
                proof {
                    assert forall|j: int| i < j < s.len() implies (#[trigger] s[j]).0 != s[i as int].0
                        by {
                        assert(s[i as int].0 < s[j].0);
                    }
                    lemma_map_of_pairs_get(s, i as int);
                }
                return Option::Some(v);
            }
            i = i + 1;
        }
        proof {
            lemma_map_of_pairs_absent(s, key);
        }
        Option::None
    }
}

/// Builds an ordered map from a list of key-value pairs, inserting them in
/// list order.
pub fn ordered_map_of(pairs: &Vec<(u64, u64)>) -> (m: OrderedMap)
    ensures
        m.well_formed(),
        m.as_map() == map_of_pairs(pairs@),
{
    let mut m = OrderedMap::new();
    proof {
        assert(pairs@.take(0) =~= Seq::<(u64, u64)>::empty());
    }
    let mut i: usize = 0;
    while i < pairs.len()
        invariant
            i <= pairs.len(),
            m.well_formed(),
            m.as_map() == map_of_pairs(pairs@.take(i as int)),
        decreases pairs.len() - i,
    {
        let (k, v) = pairs[i];
        m.insert(k, v);
        proof {
            assert(pairs@.take(i as int + 1).drop_last() =~= pairs@.take(i as int));
            assert(pairs@.take(i as int + 1).last() == pairs@[i as int]);
        }
        i = i + 1;
    }
    proof {
        assert(pairs@.take(pairs.len() as int) =~= pairs@);
    }
    m
}

} // verus!
