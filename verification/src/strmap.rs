//! A map keyed by strings, kept as a list of entries whose keys are distinct.
//! Lookups, replacing inserts and removals are stated over its view, a `Map`
//! from the key's characters to the stored value.
use crate::text::str_eq;
use vstd::prelude::*;

verus! {

/// A string-keyed map: each key occurs in at most one entry.
pub struct StrMap<V: View> {
    entries: Vec<(String, V)>,
}

impl<V: View> StrMap<V> {
    /// The keys of the entries are pairwise distinct.
    #[verifier::type_invariant]
    spec fn distinct_keys(self) -> bool {
        forall|i: int, j: int|
            0 <= i < j < self.entries@.len() ==> #[trigger] self.entries@[i].0@
                != #[trigger] self.entries@[j].0@
    }

    /// Some entry has the key `k`.
    spec fn has_key(self, k: Seq<char>) -> bool {
        exists|i: int| 0 <= i < self.entries@.len() && #[trigger] self.entries@[i].0@ == k
    }

    /// The position of the entry with key `k`, where there is one.
    spec fn index_of(self, k: Seq<char>) -> int {
        choose|i: int| 0 <= i < self.entries@.len() && #[trigger] self.entries@[i].0@ == k
    }

    /// The map that the entries hold.
    pub closed spec fn as_map(self) -> Map<Seq<char>, V::V> {
        Map::new(|k: Seq<char>| self.has_key(k), |k: Seq<char>| self.entries@[self.index_of(k)].1@)
    }

    proof fn lemma_index_of(self, i: int)
        requires
            self.distinct_keys(),
            0 <= i < self.entries@.len(),
        ensures
            self.has_key(self.entries@[i].0@),
            self.index_of(self.entries@[i].0@) == i,
            self.as_map().contains_key(self.entries@[i].0@),
            self.as_map()[self.entries@[i].0@] == self.entries@[i].1@,
    {
        let k = self.entries@[i].0@;
        assert(self.has_key(k));
        let j = self.index_of(k);
        if j != i {
            if j < i {
                assert(self.entries@[j].0@ != self.entries@[i].0@);
            } else {
                assert(self.entries@[i].0@ != self.entries@[j].0@);
            }
        }
    }

    /// An empty map.
    pub fn new() -> (res: Self)
        ensures
            res@ == Map::<Seq<char>, V::V>::empty(),
    {
        let res = StrMap { entries: Vec::new() };
        assert(res.as_map() =~= Map::<Seq<char>, V::V>::empty());
        res
    }

    /// The number of keys.
    pub fn len(&self) -> (n: usize)
        ensures
            n == self@.dom().len(),
    {
        proof {
            use_type_invariant(self);
            self.lemma_dom_len();
        }
        self.entries.len()
    }

    proof fn lemma_dom_len(self)
        requires
            self.distinct_keys(),
        ensures
            self.as_map().dom().finite(),
            self.as_map().dom().len() == self.entries@.len(),
        decreases self.entries@.len(),
    {
        let keys = self.entries@.map_values(|e: (String, V)| e.0@);
        assert(keys.no_duplicates()) by {
            assert forall|i: int, j: int|
                0 <= i < keys.len() && 0 <= j < keys.len() && i != j implies keys[i]
                != keys[j] by {
                if i < j {
                    assert(self.entries@[i].0@ != self.entries@[j].0@);
                } else {
                    assert(self.entries@[j].0@ != self.entries@[i].0@);
                }
            }
        }
        assert(self.as_map().dom() =~= keys.to_set()) by {
            assert forall|k: Seq<char>| self.as_map().dom().contains(k) implies keys.to_set().contains(k) by {
                let i = self.index_of(k);
                assert(keys[i] == k);
            }
            assert forall|k: Seq<char>| keys.to_set().contains(k) implies self.as_map().dom().contains(k) by {
                let i = choose|i: int| 0 <= i < keys.len() && keys[i] == k;
                assert(self.entries@[i].0@ == k);
            }
        }
        keys.unique_seq_to_set();
    }

    /// The position of the entry with key `k`, or `None` when no entry has it.
    fn find(&self, k: &str) -> (res: Option<usize>)
        ensures
            match res {
                Some(i) => i < self.entries@.len() && self.entries@[i as int].0@ == k@,
                None => !self.has_key(k@),
            },
    {
        let mut i: usize = 0;
        while i < self.entries.len()
            invariant
                i <= self.entries@.len(),
                forall|j: int| 0 <= j < i ==> #[trigger] self.entries@[j].0@ != k@,
            decreases self.entries@.len() - i,
        {
            if str_eq(self.entries[i].0.as_str(), k) {
                return Some(i);
            }
            i = i + 1;
        }
        None
    }

    /// The value stored under `k`.
    pub fn get(&self, k: &str) -> (res: Option<&V>)
        ensures
            match res {
                Some(v) => self@.contains_key(k@) && v@ == self@[k@],
                None => !self@.contains_key(k@),
            },
    {
        proof {
            use_type_invariant(self);
        }
        match self.find(k) {
            Some(i) => {
                proof {
                    self.lemma_index_of(i as int);
                }
                Some(&self.entries[i].1)
            },
            None => None,
        }
    }

    /// Whether some value is stored under `k`.
    pub fn contains_key(&self, k: &str) -> (res: bool)
        ensures
            res == self@.contains_key(k@),
    {
        self.get(k).is_some()
    }

    /// Stores `v` under `k`, replacing what was stored there.
    pub fn insert(&mut self, k: String, v: V)
        ensures
            final(self)@ == old(self)@.insert(k@, v@),
    {
        proof {
            use_type_invariant(&*self);
        }
        let ghost old_self = *self;
        match self.find(k.as_str()) {
            Some(i) => {
                let ghost kk = k@;
                let ghost vv = v@;
                let mut entries = Vec::new();
                std::mem::swap(&mut entries, &mut self.entries);
                entries.set(i, (k, v));
                assert forall|a: int, b: int|
                    0 <= a < b < entries@.len() implies #[trigger] entries@[a].0@
                    != #[trigger] entries@[b].0@ by {
                    assert(old_self.entries@[a].0@ != old_self.entries@[b].0@);
                }
                self.entries = entries;
                proof {
                    let m0 = old_self.as_map();
                    let m1 = self.as_map();
                    self.lemma_index_of(i as int);
                    assert forall|key: Seq<char>| #[trigger] m1.contains_key(key) == m0.insert(
                        kk,
                        vv,
                    ).contains_key(key) by {
                        if key != kk {
                            if m1.contains_key(key) {
                                let j = self.index_of(key);
                                assert(old_self.entries@[j].0@ == key);
                            }
                            if m0.contains_key(key) {
                                let j = old_self.index_of(key);
                                assert(self.entries@[j].0@ == key);
                            }
                        }
                    }
                    assert forall|key: Seq<char>| #[trigger]
                        m1.contains_key(key) && key != kk implies m1[key] == m0[key] by {
                        let j = self.index_of(key);
                        assert(old_self.entries@[j].0@ == key);
                        self.lemma_index_of(j);
                        old_self.lemma_index_of(j);
                    }
                    assert(m1 =~= m0.insert(kk, vv));
                }
            },
            None => {
                let ghost kk = k@;
                let ghost vv = v@;
                let mut entries = Vec::new();
                std::mem::swap(&mut entries, &mut self.entries);
                entries.push((k, v));
                assert forall|a: int, b: int|
                    0 <= a < b < entries@.len() implies #[trigger] entries@[a].0@
                    != #[trigger] entries@[b].0@ by {
                    if b < old_self.entries@.len() {
                        assert(old_self.entries@[a].0@ != old_self.entries@[b].0@);
                    } else {
                        assert(old_self.entries@[a].0@ != kk);
                    }
                }
                self.entries = entries;
                proof {
                    let m0 = old_self.as_map();
                    let m1 = self.as_map();
                    let n = old_self.entries@.len() as int;
                    self.lemma_index_of(n);
                    assert forall|key: Seq<char>| #[trigger] m1.contains_key(key) == m0.insert(
                        kk,
                        vv,
                    ).contains_key(key) by {
                        if key != kk {
                            if m1.contains_key(key) {
                                let j = self.index_of(key);
                                assert(old_self.entries@[j].0@ == key);
                            }
                            if m0.contains_key(key) {
                                let j = old_self.index_of(key);
                                assert(self.entries@[j].0@ == key);
                            }
                        }
                    }
                    assert forall|key: Seq<char>| #[trigger]
                        m1.contains_key(key) && key != kk implies m1[key] == m0[key] by {
                        let j = self.index_of(key);
                        assert(old_self.entries@[j].0@ == key);
                        self.lemma_index_of(j);
                        old_self.lemma_index_of(j);
                    }
                    assert(m1 =~= m0.insert(kk, vv));
                }
            },
        }
    }

    /// Removes what is stored under `k`, and hands it back.
    pub fn remove(&mut self, k: &str) -> (res: Option<V>)
        ensures
            final(self)@ == old(self)@.remove(k@),
            match res {
                Some(v) => old(self)@.contains_key(k@) && v@ == old(self)@[k@],
                None => !old(self)@.contains_key(k@),
            },
    {
        proof {
            use_type_invariant(&*self);
        }
        let ghost old_self = *self;
        match self.find(k) {
            Some(i) => {
                proof {
                    old_self.lemma_index_of(i as int);
                }
                let mut entries = Vec::new();
                std::mem::swap(&mut entries, &mut self.entries);
                let (_, v) = entries.remove(i);
                assert forall|a: int, b: int|
                    0 <= a < b < entries@.len() implies #[trigger] entries@[a].0@
                    != #[trigger] entries@[b].0@ by {
                    let a0 = if a < i { a } else { a + 1 };
                    let b0 = if b < i { b } else { b + 1 };
                    assert(old_self.entries@[a0].0@ != old_self.entries@[b0].0@);
                }
                self.entries = entries;
                proof {
                    let m0 = old_self.as_map();
                    let m1 = self.as_map();
                    assert forall|key: Seq<char>| #[trigger] m1.contains_key(key) == m0.remove(
                        k@,
                    ).contains_key(key) by {
                        if m1.contains_key(key) {
                            let j = self.index_of(key);
                            if j < i {
                                assert(old_self.entries@[j].0@ == key);
                                assert(old_self.entries@[j].0@ != old_self.entries@[i as int].0@);
                            } else {
                                assert(old_self.entries@[j + 1].0@ == key);
                                assert(old_self.entries@[i as int].0@ != old_self.entries@[j
                                    + 1].0@);
                            }
                        }
                        if m0.contains_key(key) && key != k@ {
                            let j = old_self.index_of(key);
                            if j < i {
                                assert(self.entries@[j].0@ == key);
                            } else {
                                assert(j != i);
                                assert(self.entries@[j - 1].0@ == key);
                            }
                        }
                    }
                    assert forall|key: Seq<char>| #[trigger]
                        m1.contains_key(key) implies m1[key] == m0[key] by {
                        let j = self.index_of(key);
                        self.lemma_index_of(j);
                        if j < i {
                            old_self.lemma_index_of(j);
                        } else {
                            old_self.lemma_index_of(j + 1);
                        }
                    }
                    assert(m1 =~= m0.remove(k@));
                }
                Some(v)
            },
            None => {
                proof {
                    assert(old_self.as_map() =~= old_self.as_map().remove(k@));
                }
                None
            },
        }
    }
}

/// `m` without the keys whose value is `v`.
pub open spec fn without_value(m: Map<Seq<char>, Seq<char>>, v: Seq<char>) -> Map<
    Seq<char>,
    Seq<char>,
> {
    Map::new(|k: Seq<char>| m.contains_key(k) && m[k] != v, |k: Seq<char>| m[k])
}

impl StrMap<String> {
    /// Removes every key whose value is `value`.
    pub fn remove_value(&mut self, value: &str)
        ensures
            final(self)@ == without_value(old(self)@, value@),
    {
        proof {
            use_type_invariant(&*self);
        }
        let ghost old_self = *self;
        let mut entries = Vec::new();
        std::mem::swap(&mut entries, &mut self.entries);
        let mut kept: Vec<(String, String)> = Vec::new();
        let ghost mut src: Seq<int> = Seq::empty();
        let ghost mut pos: Seq<int> = Seq::empty();
        let mut i: usize = 0;
        while i < entries.len()
            invariant
                entries@ == old_self.entries@,
                i <= entries@.len(),
                src.len() == kept@.len(),
                pos.len() == i,
                forall|a: int|
                    0 <= a < kept@.len() ==> 0 <= #[trigger] src[a] < i && kept@[a]
                        == entries@[src[a]] && entries@[src[a]].1@ != value@,
                forall|a: int, b: int| 0 <= a < b < kept@.len() ==> #[trigger] src[a] < #[trigger] src[b],
                forall|j: int|
                    0 <= j < i && entries@[j].1@ != value@ ==> 0 <= #[trigger] pos[j] < kept@.len()
                        && kept@[pos[j]] == entries@[j],
            decreases entries@.len() - i,
        {
            if !str_eq(entries[i].1.as_str(), value) {
                let pair = (entries[i].0.clone(), entries[i].1.clone());
                proof {
                    src = src.push(i as int);
                    pos = pos.push(kept@.len() as int);
                }
                kept.push(pair);
            } else {
                proof {
                    pos = pos.push(-1);
                }
            }
            i = i + 1;
        }
        proof {
            assert forall|a: int, b: int|
                0 <= a < b < kept@.len() implies #[trigger] kept@[a].0@ != #[trigger] kept@[b].0@ by {
                assert(src[a] < src[b]);
                assert(old_self.entries@[src[a]].0@ != old_self.entries@[src[b]].0@);
            }
        }
        self.entries = kept;
        proof {
            self.lemma_kept_view(old_self, value@, src, pos);
        }
    }

    proof fn lemma_kept_view(self, old_self: Self, value: Seq<char>, src: Seq<int>, pos: Seq<int>)
        requires
            self.distinct_keys(),
            old_self.distinct_keys(),
            src.len() == self.entries@.len(),
            pos.len() == old_self.entries@.len(),
            forall|a: int|
                0 <= a < self.entries@.len() ==> 0 <= #[trigger] src[a] < old_self.entries@.len()
                    && self.entries@[a] == old_self.entries@[src[a]] && old_self.entries@[src[a]].1@
                    != value,
            forall|j: int|
                0 <= j < old_self.entries@.len() && old_self.entries@[j].1@ != value ==> 0
                    <= #[trigger] pos[j] < self.entries@.len() && self.entries@[pos[j]]
                    == old_self.entries@[j],
        ensures
            self.as_map() == without_value(old_self.as_map(), value),
    {
        let m0 = old_self.as_map();
        let m1 = self.as_map();
        let w = without_value(m0, value);
        assert forall|k: Seq<char>| #[trigger] m1.contains_key(k) == w.contains_key(k) by {
            if m1.contains_key(k) {
                let a = self.index_of(k);
                old_self.lemma_index_of(src[a]);
            }
            if w.contains_key(k) {
                let j = old_self.index_of(k);
                old_self.lemma_index_of(j);
                assert(self.entries@[pos[j]].0@ == k);
            }
        }
        assert forall|k: Seq<char>| #[trigger] m1.contains_key(k) implies m1[k] == w[k] by {
            let a = self.index_of(k);
            self.lemma_index_of(a);
            old_self.lemma_index_of(src[a]);
        }
        assert(m1 =~= w);
    }
}

impl<V: View> View for StrMap<V> {
    type V = Map<Seq<char>, V::V>;

    closed spec fn view(&self) -> Map<Seq<char>, V::V> {
        self.as_map()
    }
}

} // verus!
