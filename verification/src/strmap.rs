//! A string-keyed association map with a `Map<Seq<char>, V>` view.
//!
//! Both backing stores key their records by string ids (note ids, identities,
//! proposal ids), so every component of the library stores its records in one
//! of these. The representation is a vector of key/value pairs with pairwise
//! distinct keys.

use vstd::prelude::*;

verus! {

/// The map a sequence of key/value pairs denotes: later pairs win,
/// though `StrMap` keeps its keys distinct so the order never matters.
pub open spec fn map_of<V>(s: Seq<(String, V)>) -> Map<Seq<char>, V>
    decreases s.len(),
{
    if s.len() == 0 {
        Map::empty()
    } else {
        map_of(s.drop_last()).insert(s.last().0@, s.last().1)
    }
}

/// The keys of a sequence of pairs, in order.
pub open spec fn keys_of<V>(s: Seq<(String, V)>) -> Seq<Seq<char>> {
    s.map_values(|p: (String, V)| p.0@)
}

/// Pairwise distinct keys.
pub open spec fn distinct_keys<V>(s: Seq<(String, V)>) -> bool {
    forall|i: int, j: int| 0 <= i < j < s.len() ==> s[i].0@ != s[j].0@
}

/// Membership in `map_of` is membership among the pair keys.
pub proof fn lemma_map_of_contains<V>(s: Seq<(String, V)>, k: Seq<char>)
    ensures
        map_of(s).contains_key(k) <==> exists|i: int| 0 <= i < s.len() && s[i].0@ == k,
    decreases s.len(),
{
    if s.len() > 0 {
        lemma_map_of_contains(s.drop_last(), k);
        if s.last().0@ == k {
            assert(s[s.len() - 1].0@ == k);
        } else if map_of(s).contains_key(k) {
            let i = choose|i: int| 0 <= i < s.drop_last().len() && s.drop_last()[i].0@ == k;
            assert(s[i].0@ == k);
        } else {
            assert forall|i: int| 0 <= i < s.len() implies s[i].0@ != k by {
                if i < s.len() - 1 {
                    assert(s.drop_last()[i].0@ == s[i].0@);
                }
            }
        }
    }
}

/// With distinct keys, the value at a pair's key is that pair's value.
pub proof fn lemma_map_of_index<V>(s: Seq<(String, V)>, i: int)
    requires
        distinct_keys(s),
        0 <= i < s.len(),
    ensures
        map_of(s).contains_key(s[i].0@),
        map_of(s)[s[i].0@] == s[i].1,
    decreases s.len(),
{
    lemma_map_of_contains(s, s[i].0@);
    if i < s.len() - 1 {
        assert(distinct_keys(s.drop_last())) by {
            assert forall|x: int, y: int|
                0 <= x < y < s.drop_last().len() implies s.drop_last()[x].0@ != s.drop_last()[y].0@ by {
                assert(s.drop_last()[x].0@ == s[x].0@);
                assert(s.drop_last()[y].0@ == s[y].0@);
            }
        }
        assert(s.drop_last()[i] == s[i]);
        lemma_map_of_index(s.drop_last(), i);
        assert(s[i].0@ != s.last().0@);
    }
}

/// Removing the pair that holds key `k` removes `k` from the denoted map.
proof fn lemma_map_of_remove<V>(s: Seq<(String, V)>, i: int)
    requires
        distinct_keys(s),
        0 <= i < s.len(),
    ensures
        map_of(s.remove(i)) =~= map_of(s).remove(s[i].0@),
    decreases s.len(),
{
    let k = s[i].0@;
    if i == s.len() - 1 {
        assert(s.remove(i) =~= s.drop_last());
        lemma_map_of_contains(s.drop_last(), k);
        assert forall|x: int| 0 <= x < s.drop_last().len() implies s.drop_last()[x].0@ != k by {
            assert(s.drop_last()[x] == s[x]);
        }
        assert(!map_of(s.drop_last()).contains_key(k));
    } else {
        assert(distinct_keys(s.drop_last())) by {
            assert forall|x: int, y: int|
                0 <= x < y < s.drop_last().len() implies s.drop_last()[x].0@ != s.drop_last()[y].0@ by {
                assert(s.drop_last()[x].0@ == s[x].0@);
                assert(s.drop_last()[y].0@ == s[y].0@);
            }
        }
        assert(s.drop_last()[i] == s[i]);
        lemma_map_of_remove(s.drop_last(), i);
        assert(s.remove(i).drop_last() =~= s.drop_last().remove(i));
        assert(s.remove(i).last() == s.last());
        assert(s[i].0@ != s.last().0@);
    }
}

/// A finite map from `String` keys to `V` values, backed by a vector of
/// pairs with pairwise distinct keys and viewed as a `Map<Seq<char>, V>`.
pub struct StrMap<V> {
    entries: Vec<(String, V)>,
}

impl<V> View for StrMap<V> {
    type V = Map<Seq<char>, V>;

    closed spec fn view(&self) -> Map<Seq<char>, V> {
        map_of(self.entries@)
    }
}

impl<V> StrMap<V> {
    /// The representation keeps one pair per key.
    pub closed spec fn wf(&self) -> bool {
        distinct_keys(self.entries@)
    }

    /// The stored values, in insertion order; used to walk the map.
    pub closed spec fn values_seq(&self) -> Seq<V> {
        self.entries@.map_values(|p: (String, V)| p.1)
    }

    /// The stored keys, in insertion order, parallel to `values_seq`.
    pub closed spec fn keys_seq(&self) -> Seq<Seq<char>> {
        keys_of(self.entries@)
    }

    /// The walkable sequences enumerate exactly the map's entries.
    pub proof fn lemma_enumeration(&self)
        requires
            self.wf(),
        ensures
            self.keys_seq().len() == self.values_seq().len(),
            forall|i: int| #![trigger self.keys_seq()[i]]
                0 <= i < self.keys_seq().len()
                    ==> self@.contains_key(self.keys_seq()[i])
                        && self@[self.keys_seq()[i]] == self.values_seq()[i],
            forall|k: Seq<char>| #[trigger] self@.contains_key(k)
                ==> exists|i: int| 0 <= i < self.keys_seq().len() && self.keys_seq()[i] == k,
            forall|i: int, j: int|
                0 <= i < j < self.keys_seq().len() ==> self.keys_seq()[i] != self.keys_seq()[j],
    {
        assert forall|i: int| #![trigger self.keys_seq()[i]]
            0 <= i < self.keys_seq().len()
            implies self@.contains_key(self.keys_seq()[i])
                && self@[self.keys_seq()[i]] == self.values_seq()[i] by {
            assert(self.keys_seq()[i] == self.entries@[i].0@);
            assert(self.values_seq()[i] == self.entries@[i].1);
            lemma_map_of_index(self.entries@, i);
        }
        assert forall|k: Seq<char>| #[trigger] self@.contains_key(k)
            implies exists|i: int| 0 <= i < self.keys_seq().len() && self.keys_seq()[i] == k by {
            lemma_map_of_contains(self.entries@, k);
            let i = choose|i: int| 0 <= i < self.entries@.len() && self.entries@[i].0@ == k;
            assert(self.keys_seq()[i] == k);
        }
        assert forall|i: int, j: int|
            0 <= i < j < self.keys_seq().len()
            implies self.keys_seq()[i] != self.keys_seq()[j] by {
            assert(self.keys_seq()[i] == self.entries@[i].0@);
            assert(self.keys_seq()[j] == self.entries@[j].0@);
        }
    }

    /// An empty map.
    pub fn new() -> (r: StrMap<V>)
        ensures
            r.wf(),
            r@ == Map::<Seq<char>, V>::empty(),
            r.keys_seq() == Seq::<Seq<char>>::empty(),
    {
        let r = StrMap { entries: Vec::new() };
        proof {
            assert(r.keys_seq() =~= Seq::<Seq<char>>::empty());
        }
        r
    }

    /// The number of entries.
    pub fn len(&self) -> (r: usize)
        ensures
            r == self.keys_seq().len(),
    {
        self.entries.len()
    }

    /// The key of the `i`th entry.
    pub fn key_at(&self, i: usize) -> (r: &String)
        requires
            i < self.keys_seq().len(),
        ensures
            r@ == self.keys_seq()[i as int],
    {
        &self.entries[i].0
    }

    /// The value of the `i`th entry.
    pub fn value_at(&self, i: usize) -> (r: &V)
        requires
            i < self.keys_seq().len(),
        ensures
            *r == self.values_seq()[i as int],
    {
        &self.entries[i].1
    }

    /// Position of the entry holding `k`, if any.
    fn position(&self, k: &str) -> (r: Option<usize>)
        requires
            self.wf(),
        ensures
            match r {
                Some(i) => i < self.entries@.len() && self.entries@[i as int].0@ == k@
                    && self@.contains_key(k@) && self@[k@] == self.entries@[i as int].1,
                None => !self@.contains_key(k@),
            },
    {
        let ks: String = k.to_owned();
        let n = self.entries.len();
        let mut i: usize = 0;
        while i < n
            invariant
                n == self.entries@.len(),
                i <= n,
                ks@ == k@,
                self.wf(),
                forall|j: int| 0 <= j < i ==> self.entries@[j].0@ != k@,
            decreases n - i,
        {
            if self.entries[i].0 == ks {
                proof {
                    lemma_map_of_index(self.entries@, i as int);
                }
                return Some(i);
            }
            i = i + 1;
        }
        proof {
            lemma_map_of_contains(self.entries@, k@);
        }
        None
    }

    /// Whether `k` is present.
    pub fn contains_key(&self, k: &str) -> (r: bool)
        requires
            self.wf(),
        ensures
            r == self@.contains_key(k@),
    {
        self.position(k).is_some()
    }

    /// The value under `k`, if any.
    pub fn get(&self, k: &str) -> (r: Option<&V>)
        requires
            self.wf(),
        ensures
            match r {
                Some(v) => self@.contains_key(k@) && *v == self@[k@],
                None => !self@.contains_key(k@),
            },
    {
        match self.position(k) {
            Some(i) => Some(&self.entries[i].1),
            None => None,
        }
    }

    /// Binds `k` to `v`, replacing any earlier binding.
    pub fn insert(&mut self, k: String, v: V)
        requires
            old(self).wf(),
        ensures
            final(self).wf(),
            final(self)@ == old(self)@.insert(k@, v),
    {
        self.remove(k.as_str());
        proof {
            lemma_map_of_contains(self.entries@, k@);
        }
        let ghost pre = self.entries@;
        self.entries.push((k, v));
        proof {
            assert(self.entries@.drop_last() =~= pre);
            assert(distinct_keys(self.entries@)) by {
                assert forall|i: int, j: int|
                    0 <= i < j < self.entries@.len() implies self.entries@[i].0@ != self.entries@[j].0@ by {
                    if j == self.entries@.len() - 1 {
                        assert(pre[i].0@ != k@);
                    }
                }
            }
        }
    }

    /// Removes the binding of `k`, if any.
    pub fn remove(&mut self, k: &str)
        requires
            old(self).wf(),
        ensures
            final(self).wf(),
            final(self)@ == old(self)@.remove(k@),
    {
        match self.position(k) {
            Some(i) => {
                proof {
                    lemma_map_of_remove(self.entries@, i as int);
                }
                let ghost pre = self.entries@;
                self.entries.remove(i);
                proof {
                    assert(distinct_keys(self.entries@)) by {
                        assert forall|x: int, y: int|
                            0 <= x < y < self.entries@.len()
                                implies self.entries@[x].0@ != self.entries@[y].0@ by {
                            let px: int = if x < i { x } else { x + 1 };
                            let py: int = if y < i { y } else { y + 1 };
                            assert(self.entries@[x] == pre[px]);
                            assert(self.entries@[y] == pre[py]);
                        }
                    }
                }
            },
            None => {
                proof {
                    assert(self@ =~= self@.remove(k@));
                }
            },
        }
    }
}

} // verus!
