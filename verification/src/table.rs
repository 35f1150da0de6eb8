//! A small map from string keys to values, kept as a vector of entries with
//! distinct keys. Its view is a `Map` from the keys' characters.

use vstd::prelude::*;

verus! {

pub struct Table<V> {
    entries: Vec<(String, V)>,
}

impl<V> Table<V> {
    /// No two entries share a key.
    #[verifier::type_invariant]
    spec fn keys_distinct(&self) -> bool {
        forall|i: int, j: int|
            0 <= i < self.entries.len() && 0 <= j < self.entries.len() && i != j
                ==> #[trigger] self.entries@[i].0@ != #[trigger] self.entries@[j].0@
    }

    spec fn has_index(&self, k: Seq<char>, i: int) -> bool {
        0 <= i < self.entries.len() && self.entries@[i].0@ == k
    }

    spec fn index_of(&self, k: Seq<char>) -> int {
        choose|i: int| self.has_index(k, i)
    }

}

impl<V: View> Table<V> {
    /// The entries as a map from key characters to the values' views.
    pub closed spec fn view(&self) -> Map<Seq<char>, V::V> {
        Map::new(|k: Seq<char>| exists|i: int| self.has_index(k, i), |k: Seq<char>| self.entries@[self.index_of(k)].1@)
    }

    proof fn lemma_view_at(&self, i: int)
        requires
            self.keys_distinct(),
            0 <= i < self.entries.len(),
        ensures
            self.view().contains_key(self.entries@[i].0@),
            self.view()[self.entries@[i].0@] == self.entries@[i].1@,
    {
        let k = self.entries@[i].0@;
        assert(self.has_index(k, i));
        let j = self.index_of(k);
        assert(self.has_index(k, j));
    }

    pub fn new() -> (t: Self)
        ensures
            t.view() == Map::<Seq<char>, V::V>::empty(),
    {
        let t = Table { entries: Vec::new() };
        assert(t.view() =~= Map::<Seq<char>, V::V>::empty());
        t
    }

    fn find(&self, key: &str) -> (r: Option<usize>)
        ensures
            r matches Some(i) ==> i < self.entries.len() && self.entries@[i as int].0@ == key@,
            r is None ==> !self.view().contains_key(key@),
    {
        let k = String::from_str(key);
        let mut i: usize = 0;
        while i < self.entries.len()
            invariant
                i <= self.entries.len(),
                k@ == key@,
                forall|j: int| 0 <= j < i ==> self.entries@[j].0@ != key@,
            decreases self.entries.len() - i,
        {
            if self.entries[i].0 == k {
                return Some(i);
            }
            i = i + 1;
        }
        None
    }

    /// The value stored under `key`.
    pub fn get(&self, key: &str) -> (r: Option<&V>)
        ensures
            r matches Some(v) ==> self.view().contains_key(key@) && self.view()[key@] == v@,
            r is None ==> !self.view().contains_key(key@),
    {
        proof {
            use_type_invariant(self);
        }
        match self.find(key) {
            Some(i) => {
                proof {
                    self.lemma_view_at(i as int);
                }
                Some(&self.entries[i].1)
            },
            None => None,
        }
    }

    /// Stores `v` under `key`, replacing what was there.
    pub fn insert(&mut self, key: String, v: V)
        ensures
            final(self).view() == old(self).view().insert(key@, v@),
    {
        proof {
            use_type_invariant(&*self);
        }
        let ghost old_entries = self.entries@;
        let ghost k = key@;
        let ghost vv = v@;
        match self.find(key.as_str()) {
            Some(i) => {
                let mut entries: Vec<(String, V)> = Vec::new();
                std::mem::swap(&mut entries, &mut self.entries);
                entries.set(i, (key, v));
                self.entries = entries;
                proof {
                    assert forall|a: int, b: int|
                        0 <= a < self.entries.len() && 0 <= b < self.entries.len() && a != b
                            implies #[trigger] self.entries@[a].0@ != #[trigger] self.entries@[b].0@ by {
                        assert(old_entries[a].0@ != old_entries[b].0@);
                    }
                    assert(self.keys_distinct());
                    assert forall|kk: Seq<char>| #![auto] self.view().contains_key(kk) == old(self).view().insert(k, vv).contains_key(kk) by {
                        if self.view().contains_key(kk) {
                            let j = choose|j: int| self.has_index(kk, j);
                            if j != i {
                                assert(old(self).has_index(kk, j));
                            }
                        }
                        if old(self).view().contains_key(kk) {
                            let j = choose|j: int| old(self).has_index(kk, j);
                            if j != i {
                                assert(self.has_index(kk, j));
                            } else {
                                assert(self.has_index(kk, i as int));
                            }
                        }
                        if kk == k {
                            assert(self.has_index(kk, i as int));
                        }
                    }
                    assert forall|kk: Seq<char>| #![auto] self.view().contains_key(kk) implies self.view()[kk] == old(self).view().insert(k, vv)[kk] by {
                        let j = choose|j: int| self.has_index(kk, j);
                        self.lemma_view_at(j);
                        if j != i {
                            assert(old(self).has_index(kk, j));
                            old(self).lemma_view_at(j);
                        }
                    }
                    assert(self.view() =~= old(self).view().insert(k, vv));
                }
            },
            None => {
                let mut entries: Vec<(String, V)> = Vec::new();
                std::mem::swap(&mut entries, &mut self.entries);
                entries.push((key, v));
                proof {
                    let n = old_entries.len() as int;
                    assert forall|a: int, b: int|
                        0 <= a < entries.len() && 0 <= b < entries.len() && a != b
                            implies #[trigger] entries@[a].0@ != #[trigger] entries@[b].0@ by {
                        if a < n && b < n {
                            assert(old_entries[a].0@ != old_entries[b].0@);
                        } else if a < n {
                            assert(old(self).has_index(old_entries[a].0@, a));
                        } else {
                            assert(old(self).has_index(old_entries[b].0@, b));
                        }
                    }
                }
                self.entries = entries;
                proof {
                    let n = old_entries.len() as int;
                    assert forall|kk: Seq<char>| #![auto] self.view().contains_key(kk) == old(self).view().insert(k, vv).contains_key(kk) by {
                        if self.view().contains_key(kk) {
                            let j = choose|j: int| self.has_index(kk, j);
                            if j < n {
                                assert(old(self).has_index(kk, j));
                            }
                        }
                        if old(self).view().contains_key(kk) {
                            let j = choose|j: int| old(self).has_index(kk, j);
                            assert(self.has_index(kk, j));
                        }
                        if kk == k {
                            assert(self.has_index(kk, n));
                        }
                    }
                    assert forall|kk: Seq<char>| #![auto] self.view().contains_key(kk) implies self.view()[kk] == old(self).view().insert(k, vv)[kk] by {
                        let j = choose|j: int| self.has_index(kk, j);
                        self.lemma_view_at(j);
                        if j < n {
                            assert(old(self).has_index(kk, j));
                            old(self).lemma_view_at(j);
                        }
                    }
                    assert(self.view() =~= old(self).view().insert(k, vv));
                }
            },
        }
    }

    /// Removes the entry under `key`, returning its value.
    pub fn remove(&mut self, key: &str) -> (r: Option<V>)
        ensures
            final(self).view() == old(self).view().remove(key@),
            r matches Some(v) ==> old(self).view().contains_key(key@) && old(self).view()[key@] == v@,
            r is None ==> !old(self).view().contains_key(key@),
    {
        proof {
            use_type_invariant(&*self);
        }
        let ghost old_entries = self.entries@;
        match self.find(key) {
            None => {
                assert(self.view() =~= old(self).view().remove(key@));
                None
            },
            Some(i) => {
                proof {
                    self.lemma_view_at(i as int);
                }
                let mut entries: Vec<(String, V)> = Vec::new();
                std::mem::swap(&mut entries, &mut self.entries);
                let (_, v) = entries.remove(i);
                self.entries = entries;
                proof {
                    let ii = i as int;
                    assert forall|a: int, b: int|
                        0 <= a < self.entries.len() && 0 <= b < self.entries.len() && a != b
                            implies #[trigger] self.entries@[a].0@ != #[trigger] self.entries@[b].0@ by {
                        let oa = if a < ii { a } else { a + 1 };
                        let ob = if b < ii { b } else { b + 1 };
                        assert(self.entries@[a] == old_entries[oa]);
                        assert(self.entries@[b] == old_entries[ob]);
                        assert(old_entries[oa].0@ != old_entries[ob].0@);
                    }
                    assert(self.keys_distinct());
                    assert forall|kk: Seq<char>| #![auto] self.view().contains_key(kk) == old(self).view().remove(key@).contains_key(kk) by {
                        if self.view().contains_key(kk) {
                            let j = choose|j: int| self.has_index(kk, j);
                            let oj = if j < ii { j } else { j + 1 };
                            assert(self.entries@[j] == old_entries[oj]);
                            assert(old(self).has_index(kk, oj));
                            assert(old_entries[oj].0@ != old_entries[ii].0@);
                        }
                        if old(self).view().contains_key(kk) && kk != key@ {
                            let j = choose|j: int| old(self).has_index(kk, j);
                            assert(j != ii);
                            let nj = if j < ii { j } else { j - 1 };
                            assert(self.entries@[nj] == old_entries[j]);
                            assert(self.has_index(kk, nj));
                        }
                    }
                    assert forall|kk: Seq<char>| #![auto] self.view().contains_key(kk) implies self.view()[kk] == old(self).view().remove(key@)[kk] by {
                        let j = choose|j: int| self.has_index(kk, j);
                        self.lemma_view_at(j);
                        let oj = if j < ii { j } else { j + 1 };
                        assert(self.entries@[j] == old_entries[oj]);
                        assert(old(self).has_index(kk, oj));
                        old(self).lemma_view_at(oj);
                    }
                    assert(self.view() =~= old(self).view().remove(key@));
                }
                Some(v)
            },
        }
    }

    /// The keys, in storage order.
    pub fn keys(&self) -> (ks: Vec<String>)
        ensures
            forall|i: int| 0 <= i < ks.len() ==> self.view().contains_key(#[trigger] ks@[i]@),
            forall|k: Seq<char>|
                self.view().contains_key(k) ==> exists|i: int| 0 <= i < ks.len() && #[trigger] ks@[i]@ == k,
            forall|i: int, j: int|
                0 <= i < ks.len() && 0 <= j < ks.len() && i != j ==> #[trigger] ks@[i]@ != #[trigger] ks@[j]@,
    {
        proof {
            use_type_invariant(self);
        }
        let mut ks: Vec<String> = Vec::new();
        let mut i: usize = 0;
        while i < self.entries.len()
            invariant
                i <= self.entries.len(),
                ks.len() == i,
                self.keys_distinct(),
                forall|j: int| 0 <= j < i ==> #[trigger] ks@[j]@ == self.entries@[j].0@,
            decreases self.entries.len() - i,
        {
            ks.push(self.entries[i].0.clone());
            i = i + 1;
        }
        proof {
            assert forall|j: int| 0 <= j < ks.len() implies self.view().contains_key(#[trigger] ks@[j]@) by {
                self.lemma_view_at(j);
            }
            assert forall|k: Seq<char>| self.view().contains_key(k) implies exists|j: int| 0 <= j < ks.len() && #[trigger] ks@[j]@ == k by {
                let j = choose|j: int| self.has_index(k, j);
                assert(ks@[j]@ == k);
            }
        }
        ks
    }

    /// The number of entries.
    pub fn len(&self) -> (n: usize)
        ensures
            self.view().dom().finite(),
            n == self.view().dom().len(),
    {
        proof {
            use_type_invariant(self);
            let ks = self.entries@.map_values(|e: (String, V)| e.0@);
            assert forall|i: int, j: int| 0 <= i < ks.len() && 0 <= j < ks.len() && i != j implies ks[i] != ks[j] by {
                assert(self.entries@[i].0@ != self.entries@[j].0@);
            }
            assert(ks.no_duplicates());
            ks.unique_seq_to_set();
            assert forall|k: Seq<char>| #![auto] self.view().dom().contains(k) <==> ks.to_set().contains(k) by {
                if self.view().dom().contains(k) {
                    let i = choose|i: int| self.has_index(k, i);
                    assert(ks[i] == k);
                }
                if ks.to_set().contains(k) {
                    let i = choose|i: int| 0 <= i < ks.len() && ks[i] == k;
                    assert(self.has_index(k, i));
                }
            }
            assert(self.view().dom() =~= ks.to_set());
            vstd::seq_lib::seq_to_set_is_finite(ks);
        }
        self.entries.len()
    }
}

} // verus!
