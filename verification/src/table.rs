//! A small map from strings to values, kept as a vector of pairs whose keys
//! are distinct, and seen as a `Map` from key texts to values.
use crate::text::str_eq;
use vstd::prelude::*;

verus! {

/// The map that a sequence of pairs with distinct keys stands for.
pub open spec fn pairs_map<V>(s: Seq<(String, V)>) -> Map<Seq<char>, V>
    decreases s.len(),
{
    if s.len() == 0 {
        Map::empty()
    } else {
        pairs_map(s.drop_last()).insert(s.last().0@, s.last().1)
    }
}

/// The keys of the pairs are distinct.
pub open spec fn distinct_keys<V>(s: Seq<(String, V)>) -> bool {
    forall|i: int, j: int| 0 <= i < s.len() && 0 <= j < s.len() && i != j ==> #[trigger] s[i].0@ != #[trigger] s[j].0@
}

/// A pair with key `k` occurs in `s`.
pub open spec fn has_key<V>(s: Seq<(String, V)>, k: Seq<char>) -> bool {
    exists|i: int| 0 <= i < s.len() && #[trigger] s[i].0@ == k
}

/// The map's domain is the set of keys, and the value of the key of pair `i` is pair `i`'s value.
pub proof fn lemma_pairs_map<V>(s: Seq<(String, V)>)
    requires
        distinct_keys(s),
    ensures
        forall|k: Seq<char>| #[trigger] pairs_map(s).dom().contains(k) <==> has_key(s, k),
        forall|i: int| 0 <= i < s.len() ==> #[trigger] pairs_map(s)[s[i].0@] == s[i].1,
        pairs_map(s).dom().finite(),
        pairs_map(s).dom().len() == s.len(),
    decreases s.len(),
{
    if s.len() > 0 {
        let p = s.drop_last();
        assert(distinct_keys(p));
        lemma_pairs_map(p);
        assert(!has_key(p, s.last().0@)) by {
            if has_key(p, s.last().0@) {
                let i = choose|i: int| 0 <= i < p.len() && #[trigger] p[i].0@ == s.last().0@;
                assert(s[i].0@ == s[s.len() - 1].0@);
            }
        }
        assert forall|k: Seq<char>| #[trigger] pairs_map(s).dom().contains(k) <==> has_key(s, k) by {
            if has_key(s, k) {
                let i = choose|i: int| 0 <= i < s.len() && #[trigger] s[i].0@ == k;
                if i < s.len() - 1 {
                    assert(p[i].0@ == k);
                }
            }
            if pairs_map(p).dom().contains(k) {
                let i = choose|i: int| 0 <= i < p.len() && #[trigger] p[i].0@ == k;
                assert(s[i].0@ == k);
            }
        }
        assert forall|i: int| 0 <= i < s.len() implies #[trigger] pairs_map(s)[s[i].0@] == s[i].1 by {
            if i < s.len() - 1 {
                assert(p[i] == s[i]);
                assert(s[i].0@ != s.last().0@);
            }
        }
    }
}

/// A map from strings to values.
pub struct StrMap<V> {
    pairs: Vec<(String, V)>,
}

impl<V> StrMap<V> {
    /// The pairs, in storage order.
    pub closed spec fn pairs(&self) -> Seq<(String, V)> {
        self.pairs@
    }

    /// The keys are distinct.
    pub open spec fn wf(&self) -> bool {
        distinct_keys(self.pairs())
    }

    /// The map from key texts to values.
    pub open spec fn map(&self) -> Map<Seq<char>, V> {
        pairs_map(self.pairs())
    }

    /// An empty map.
    pub fn new() -> (m: Self)
        ensures
            m.wf(),
            m.map() == Map::<Seq<char>, V>::empty(),
            m.pairs().len() == 0,
    {
        StrMap { pairs: Vec::new() }
    }

    /// A map holding exactly `pairs`, whose keys must be distinct.
    pub fn from_pairs(pairs: Vec<(String, V)>) -> (m: Self)
        requires
            distinct_keys(pairs@),
        ensures
            m.wf(),
            m.pairs() == pairs@,
    {
        StrMap { pairs }
    }

    /// The number of entries.
    pub fn len(&self) -> (n: usize)
        requires
            self.wf(),
        ensures
            n == self.map().len(),
            n == self.pairs().len(),
    {
        proof {
            lemma_pairs_map(self.pairs());
        }
        self.pairs.len()
    }

    /// The entries, in storage order.
    pub fn entries(&self) -> (v: &Vec<(String, V)>)
        ensures
            v@ == self.pairs(),
    {
        &self.pairs
    }

    /// The position of the entry with key `key`.
    pub fn position(&self, key: &str) -> (r: Option<usize>)
        requires
            self.wf(),
        ensures
            match r {
                Some(i) => i < self.pairs().len() && self.pairs()[i as int].0@ == key@,
                None => !self.map().dom().contains(key@),
            },
            r is Some <==> self.map().dom().contains(key@),
    {
        proof {
            lemma_pairs_map(self.pairs());
        }
        let mut i: usize = 0;
        while i < self.pairs.len()
            invariant
                i <= self.pairs@.len(),
                self.wf(),
                forall|j: int| 0 <= j < i ==> #[trigger] self.pairs@[j].0@ != key@,
            decreases self.pairs@.len() - i,
        {
            if str_eq(self.pairs[i].0.as_str(), key) {
                proof {
                    lemma_pairs_map(self.pairs());
                    assert(self.pairs@[i as int].0@ == key@);
                    assert(has_key(self.pairs@, key@));
                }
                return Some(i);
            }
            i = i + 1;
        }
        None
    }

    /// The value of key `key`.
    pub fn get(&self, key: &str) -> (r: Option<&V>)
        requires
            self.wf(),
        ensures
            match r {
                Some(v) => self.map().dom().contains(key@) && self.map()[key@] == *v,
                None => !self.map().dom().contains(key@),
            },
    {
        proof {
            lemma_pairs_map(self.pairs());
        }
        match self.position(key) {
            Some(i) => Some(&self.pairs[i].1),
            None => None,
        }
    }

    /// Sets the value of `key` to `value`.
    pub fn insert(&mut self, key: String, value: V)
        requires
            old(self).wf(),
        ensures
            final(self).wf(),
            final(self).map() == old(self).map().insert(key@, value),
    {
        proof {
            lemma_pairs_map(self.pairs());
        }
        match self.position(key.as_str()) {
            Some(i) => {
                let ghost before = self.pairs@;
                self.pairs.set(i, (key, value));
                proof {
                    let after = self.pairs@;
                    assert(distinct_keys(after)) by {
                        assert forall|a: int, b: int| 0 <= a < after.len() && 0 <= b < after.len() && a != b
                            implies #[trigger] after[a].0@ != #[trigger] after[b].0@ by {
                            assert(before[a].0@ != before[b].0@);
                        }
                    }
                    lemma_pairs_map(after);
                    assert forall|k: Seq<char>| #[trigger] pairs_map(after).dom().contains(k)
                        <==> pairs_map(before).insert(key@, value).dom().contains(k) by {
                        if has_key(after, k) {
                            let j = choose|j: int| 0 <= j < after.len() && #[trigger] after[j].0@ == k;
                            if j != i {
                                assert(before[j].0@ == k);
                            }
                        }
                        if has_key(before, k) {
                            let j = choose|j: int| 0 <= j < before.len() && #[trigger] before[j].0@ == k;
                            assert(after[j].0@ == k);
                        }
                    }
                    assert forall|k: Seq<char>| #[trigger] pairs_map(after).dom().contains(k) implies pairs_map(after)[k]
                        == pairs_map(before).insert(key@, value)[k] by {
                        let j = choose|j: int| 0 <= j < after.len() && #[trigger] after[j].0@ == k;
                        if j != i {
                            assert(before[j] == after[j]);
                        }
                    }
                    assert(pairs_map(after) =~= pairs_map(before).insert(key@, value));
                }
            },
            None => {
                let ghost before = self.pairs@;
                self.pairs.push((key, value));
                proof {
                    let after = self.pairs@;
                    assert(after.drop_last() == before);
                    assert(distinct_keys(after)) by {
                        assert forall|a: int, b: int| 0 <= a < after.len() && 0 <= b < after.len() && a != b
                            implies #[trigger] after[a].0@ != #[trigger] after[b].0@ by {
                            if a == after.len() - 1 {
                                assert(pairs_map(before).dom().contains(before[b].0@));
                            } else if b == after.len() - 1 {
                                assert(pairs_map(before).dom().contains(before[a].0@));
                            } else {
                                assert(before[a].0@ != before[b].0@);
                            }
                        }
                    }
                }
            },
        }
    }

    /// Removes the entry of `key`, returning its value.
    pub fn remove(&mut self, key: &str) -> (r: Option<V>)
        requires
            old(self).wf(),
        ensures
            final(self).wf(),
            final(self).map() == old(self).map().remove(key@),
            match r {
                Some(v) => old(self).map().dom().contains(key@) && old(self).map()[key@] == v,
                None => !old(self).map().dom().contains(key@),
            },
    {
        proof {
            lemma_pairs_map(self.pairs());
        }
        match self.position(key) {
            Some(i) => {
                let ghost before = self.pairs@;
                let (_, v) = self.pairs.remove(i);
                proof {
                    let after = self.pairs@;
                    assert(after == before.remove(i as int));
                    assert(distinct_keys(after)) by {
                        assert forall|a: int, b: int| 0 <= a < after.len() && 0 <= b < after.len() && a != b
                            implies #[trigger] after[a].0@ != #[trigger] after[b].0@ by {
                            let a2 = if a < i { a } else { a + 1 };
                            let b2 = if b < i { b } else { b + 1 };
                            assert(after[a] == before[a2]);
                            assert(after[b] == before[b2]);
                        }
                    }
                    lemma_pairs_map(after);
                    assert forall|k: Seq<char>| #[trigger] pairs_map(after).dom().contains(k)
                        <==> pairs_map(before).remove(key@).dom().contains(k) by {
                        if has_key(after, k) {
                            let j = choose|j: int| 0 <= j < after.len() && #[trigger] after[j].0@ == k;
                            let j2 = if j < i { j } else { j + 1 };
                            assert(after[j] == before[j2]);
                            assert(before[j2].0@ != before[i as int].0@);
                        }
                        if has_key(before, k) && k != key@ {
                            let j = choose|j: int| 0 <= j < before.len() && #[trigger] before[j].0@ == k;
                            assert(j != i);
                            let j2 = if j < i { j } else { j - 1 };
                            assert(after[j2] == before[j]);
                        }
                    }
                    assert forall|k: Seq<char>| #[trigger] pairs_map(after).dom().contains(k) implies pairs_map(after)[k]
                        == pairs_map(before).remove(key@)[k] by {
                        let j = choose|j: int| 0 <= j < after.len() && #[trigger] after[j].0@ == k;
                        let j2 = if j < i { j } else { j + 1 };
                        assert(after[j] == before[j2]);
                    }
                    assert(pairs_map(after) =~= pairs_map(before).remove(key@));
                }
                Some(v)
            },
            None => {
                proof {
                    assert(pairs_map(self.pairs@) =~= pairs_map(self.pairs@).remove(key@));
                }
                None
            },
        }
    }
}

} // verus!
