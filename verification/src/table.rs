use vstd::prelude::*;

verus! {

/// A small map from string keys to values, kept as a list of entries in
/// which no key occurs twice. Its view is the finite map it stands for; the
/// order of the entries is never observable through the interface.
pub struct Table<V> {
    entries: Vec<(String, V)>,
}

impl<V> Table<V> {
    /// No key occurs in two entries.
    pub closed spec fn wf(self) -> bool {
        forall|i: int, j: int|
            #![trigger self.entries@[i], self.entries@[j]]
            0 <= i < j < self.entries@.len() ==> self.entries@[i].0@ != self.entries@[j].0@
    }

    closed spec fn holds_at(self, k: Seq<char>, i: int) -> bool {
        0 <= i < self.entries@.len() && self.entries@[i].0@ == k
    }

    /// Whether some entry has key `k`.
    pub closed spec fn has(self, k: Seq<char>) -> bool {
        exists|i: int| self.holds_at(k, i)
    }

    closed spec fn position(self, k: Seq<char>) -> int {
        choose|i: int| self.holds_at(k, i)
    }

    /// The number of entries.
    pub closed spec fn size(self) -> nat {
        self.entries@.len()
    }

    /// The map that the table stands for.
    pub closed spec fn as_map(self) -> Map<Seq<char>, V> {
        Map::new(|k: Seq<char>| self.has(k), |k: Seq<char>| self.entries@[self.position(k)].1)
    }

    proof fn lemma_entry(self, i: int)
        requires
            self.wf(),
            0 <= i < self.entries@.len(),
        ensures
            self.as_map().contains_key(self.entries@[i].0@),
            self.as_map()[self.entries@[i].0@] == self.entries@[i].1,
    {
        let k = self.entries@[i].0@;
        assert(self.holds_at(k, i));
        let p = self.position(k);
        assert(self.holds_at(k, p));
        if p != i {
            if p < i {
                assert(self.entries@[p].0@ != self.entries@[i].0@);
            } else {
                assert(self.entries@[i].0@ != self.entries@[p].0@);
            }
        }
    }

    proof fn lemma_size_zero(self)
        requires
            self.entries@.len() == 0,
        ensures
            self.as_map() == Map::<Seq<char>, V>::empty(),
    {
        assert(self.as_map() =~= Map::<Seq<char>, V>::empty());
    }

    /// An empty table.
    pub fn new() -> (t: Self)
        ensures
            t.wf(),
            t@ == Map::<Seq<char>, V>::empty(),
            t.size() == 0,
    {
        let t = Table { entries: Vec::new() };
        proof {
            t.lemma_size_zero();
        }
        t
    }

    fn find(&self, key: &String) -> (r: Option<usize>)
        requires
            self.wf(),
        ensures
            match r {
                Some(i) => i < self.entries@.len() && self.entries@[i as int].0@ == key@,
                None => !self@.contains_key(key@),
            },
    {
        let mut i: usize = 0;
        while i < self.entries.len()
            invariant
                i <= self.entries@.len(),
                forall|j: int| 0 <= j < i ==> self.entries@[j].0@ != key@,
            decreases self.entries@.len() - i,
        {
            if self.entries[i].0 == *key {
                return Some(i);
            }
            i = i + 1;
        }
        None
    }

    /// Whether `key` is in the table.
    pub fn contains_key(&self, key: &String) -> (b: bool)
        requires
            self.wf(),
        ensures
            b == self@.contains_key(key@),
    {
        match self.find(key) {
            Some(i) => {
                proof {
                    self.lemma_entry(i as int);
                }
                true
            },
            None => false,
        }
    }

    /// The value stored under `key`, if any.
    pub fn get(&self, key: &String) -> (r: Option<&V>)
        requires
            self.wf(),
        ensures
            r is Some == self@.contains_key(key@),
            r matches Some(v) ==> *v == self@[key@],
    {
        match self.find(key) {
            Some(i) => {
                proof {
                    self.lemma_entry(i as int);
                }
                Some(&self.entries[i].1)
            },
            None => None,
        }
    }

    /// Stores `value` under `key`, replacing what was there.
    pub fn insert(&mut self, key: String, value: V)
        requires
            old(self).wf(),
        ensures
            final(self).wf(),
            final(self)@ == old(self)@.insert(key@, value),
    {
        let ghost old_map = self@;
        let ghost k = key@;
        match self.find(&key) {
            Some(i) => {
                let ghost before = *self;
                self.entries.set(i, (key, value));
                proof {
                    assert forall|x: int, y: int|
                        0 <= x < y < self.entries@.len() implies #[trigger] self.entries@[x].0@
                            != #[trigger] self.entries@[y].0@ by {
                        assert(before.entries@[x].0@ != before.entries@[y].0@);
                    }
                    assert forall|q: Seq<char>| #[trigger] self.has(q) == old_map.insert(k, value).contains_key(q) by {
                        if self.has(q) {
                            let j = choose|j: int| self.holds_at(q, j);
                            if j != i {
                                assert(before.holds_at(q, j));
                                before.lemma_entry(j);
                            }
                        }
                        if old_map.contains_key(q) {
                            let j = choose|j: int| before.holds_at(q, j);
                            before.lemma_entry(j);
                            assert(self.holds_at(q, j));
                        }
                        if q == k {
                            assert(self.holds_at(q, i as int));
                        }
                    }
                    assert forall|q: Seq<char>| #[trigger] self.has(q) implies self@[q] == old_map.insert(k, value)[q] by {
                        let j = choose|j: int| self.holds_at(q, j);
                        self.lemma_entry(j);
                        if j != i {
                            before.lemma_entry(j);
                        }
                    }
                    assert(self@ =~= old_map.insert(k, value));
                }
            },
            None => {
                let ghost before = *self;
                self.entries.push((key, value));
                proof {
                    let n = before.entries@.len() as int;
                    assert forall|x: int, y: int|
                        0 <= x < y < self.entries@.len() implies #[trigger] self.entries@[x].0@
                            != #[trigger] self.entries@[y].0@ by {
                        if y == n {
                            if self.entries@[x].0@ == k {
                                assert(before.holds_at(k, x));
                            }
                        } else {
                            assert(before.entries@[x].0@ != before.entries@[y].0@);
                        }
                    }
                    assert forall|q: Seq<char>| #[trigger] self.has(q) == old_map.insert(k, value).contains_key(q) by {
                        if self.has(q) {
                            let j = choose|j: int| self.holds_at(q, j);
                            if j != n {
                                assert(before.holds_at(q, j));
                                before.lemma_entry(j);
                            }
                        }
                        if old_map.contains_key(q) {
                            let j = choose|j: int| before.holds_at(q, j);
                            assert(self.holds_at(q, j));
                        }
                        if q == k {
                            assert(self.holds_at(q, n));
                        }
                    }
                    assert forall|q: Seq<char>| #[trigger] self.has(q) implies self@[q] == old_map.insert(k, value)[q] by {
                        let j = choose|j: int| self.holds_at(q, j);
                        self.lemma_entry(j);
                        if j != n {
                            before.lemma_entry(j);
                        }
                    }
                    assert(self@ =~= old_map.insert(k, value));
                }
            },
        }
    }

    /// Takes the value stored under `key` out of the table.
    pub fn remove(&mut self, key: &String) -> (r: Option<V>)
        requires
            old(self).wf(),
        ensures
            final(self).wf(),
            final(self)@ == old(self)@.remove(key@),
            r is Some == old(self)@.contains_key(key@),
            r matches Some(v) ==> v == old(self)@[key@],
            final(self).size() <= old(self).size(),
    {
        let ghost old_map = self@;
        let ghost k = key@;
        match self.find(key) {
            Some(i) => {
                let ghost before = *self;
                proof {
                    before.lemma_entry(i as int);
                }
                let (_, v) = self.entries.remove(i);
                proof {
                    assert forall|q: Seq<char>| #[trigger] self.has(q) == old_map.remove(k).contains_key(q) by {
                        if self.has(q) {
                            let j = choose|j: int| self.holds_at(q, j);
                            if j < i {
                                assert(before.holds_at(q, j));
                                assert(before.entries@[j].0@ != before.entries@[i as int].0@);
                            } else {
                                assert(before.holds_at(q, j + 1));
                                assert(before.entries@[i as int].0@ != before.entries@[j + 1].0@);
                            }
                        }
                        if old_map.remove(k).contains_key(q) {
                            let j = choose|j: int| before.holds_at(q, j);
                            if j < i {
                                assert(self.holds_at(q, j));
                            } else {
                                assert(j != i);
                                assert(self.holds_at(q, j - 1));
                            }
                        }
                    }
                    assert forall|q: Seq<char>| #[trigger] self.has(q) implies self@[q] == old_map.remove(k)[q] by {
                        let j = choose|j: int| self.holds_at(q, j);
                        self.lemma_entry(j);
                        if j < i {
                            before.lemma_entry(j);
                        } else {
                            before.lemma_entry(j + 1);
                        }
                    }
                    assert(self@ =~= old_map.remove(k));
                }
                Some(v)
            },
            None => {
                proof {
                    assert(old_map.remove(k) =~= old_map);
                }
                None
            },
        }
    }

    /// Takes some entry out of the table, or `None` when it is empty.
    pub fn remove_any(&mut self) -> (r: Option<(String, V)>)
        requires
            old(self).wf(),
        ensures
            final(self).wf(),
            r is None ==> old(self)@ == Map::<Seq<char>, V>::empty() && final(self)@ == old(self)@,
            r matches Some(e) ==> {
                &&& old(self)@.contains_key(e.0@)
                &&& e.1 == old(self)@[e.0@]
                &&& final(self)@ == old(self)@.remove(e.0@)
                &&& final(self).size() + 1 == old(self).size()
            },
            final(self).size() <= old(self).size(),
    {
        if self.entries.len() == 0 {
            proof {
                self.lemma_size_zero();
            }
            return None;
        }
        let ghost before = *self;
        let ghost old_map = self@;
        let n = self.entries.len() - 1;
        proof {
            before.lemma_entry(n as int);
        }
        let e = self.entries.pop().unwrap();
        proof {
            let k = e.0@;
            assert forall|q: Seq<char>| #[trigger] self.has(q) == old_map.remove(k).contains_key(q) by {
                if self.has(q) {
                    let j = choose|j: int| self.holds_at(q, j);
                    assert(before.holds_at(q, j));
                    assert(before.entries@[j].0@ != before.entries@[n as int].0@);
                }
                if old_map.remove(k).contains_key(q) {
                    let j = choose|j: int| before.holds_at(q, j);
                    assert(j != n);
                    assert(self.holds_at(q, j));
                }
            }
            assert forall|q: Seq<char>| #[trigger] self.has(q) implies self@[q] == old_map.remove(k)[q] by {
                let j = choose|j: int| self.holds_at(q, j);
                self.lemma_entry(j);
                before.lemma_entry(j);
            }
            assert(self@ =~= old_map.remove(k));
        }
        Some(e)
    }
}

impl<V> View for Table<V> {
    type V = Map<Seq<char>, V>;

    closed spec fn view(&self) -> Map<Seq<char>, V> {
        self.as_map()
    }
}

} // verus!
