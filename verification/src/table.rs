use vstd::prelude::*;

verus! {

/// An association list from text keys (peer ids, host names, ...) to values.
/// Each key occurs at most once; entries keep their insertion position.
#[derive(Debug)]
pub struct KeyedTable<V> {
    entries: Vec<(String, V)>,
}

pub open spec fn keys_of<V>(s: Seq<(String, V)>) -> Seq<Seq<char>> {
    s.map_values(|e: (String, V)| e.0@)
}

impl<V> KeyedTable<V> {
    /// The keys, in table order.
    pub closed spec fn keys(&self) -> Seq<Seq<char>> {
        keys_of(self.entries@)
    }

    /// The values, in table order.
    pub closed spec fn values(&self) -> Seq<V> {
        self.entries@.map_values(|e: (String, V)| e.1)
    }

    /// Well-formedness: no key occurs twice.
    pub open spec fn wf(&self) -> bool {
        self.keys().no_duplicates()
    }

    pub closed spec fn index_of(&self, k: Seq<char>) -> int {
        choose|i: int| 0 <= i < self.keys().len() && self.keys()[i] == k
    }

    /// The table as a map from key text to value.
    pub closed spec fn view(&self) -> Map<Seq<char>, V> {
        Map::new(|k: Seq<char>| self.keys().contains(k), |k: Seq<char>| self.values()[self.index_of(k)])
    }

    pub proof fn lemma_index(&self, i: int)
        requires
            self.wf(),
            0 <= i < self.keys().len(),
        ensures
            self.index_of(self.keys()[i]) == i,
            self.view().contains_key(self.keys()[i]),
            self.view()[self.keys()[i]] == self.values()[i],
            self.keys().len() == self.values().len(),
    {
        let k = self.keys()[i];
        assert(self.keys().contains(k));
        let j = self.index_of(k);
        assert(0 <= j < self.keys().len() && self.keys()[j] == k);
    }

    pub proof fn lemma_domain(&self)
        requires
            self.wf(),
        ensures
            self.view().dom() == self.keys().to_set(),
            self.view().dom().finite(),
            self.view().dom().len() == self.keys().len(),
            self.keys().len() == self.values().len(),
    {
        assert(self.view().dom() =~= self.keys().to_set());
        self.keys().unique_seq_to_set();
    }

    pub fn new() -> (t: Self)
        ensures
            t.wf(),
            t@ == Map::<Seq<char>, V>::empty(),
            t.keys() == Seq::<Seq<char>>::empty(),
    {
        let t = KeyedTable { entries: Vec::new() };
        assert(t.keys() =~= Seq::<Seq<char>>::empty());
        assert(t@ =~= Map::<Seq<char>, V>::empty());
        t
    }

    pub fn len(&self) -> (n: usize)
        requires
            self.wf(),
        ensures
            n == self@.dom().len(),
            n == self.keys().len(),
    {
        proof {
            self.lemma_domain();
        }
        self.entries.len()
    }

    /// Position of `key`, if present.
    pub fn find(&self, key: &String) -> (r: Option<usize>)
        requires
            self.wf(),
        ensures
            r matches Some(i) ==> i < self.keys().len() && self.keys()[i as int] == key@,
            r is None <==> !self@.contains_key(key@),
    {
        let n = self.entries.len();
        let mut i: usize = 0;
        while i < n
            invariant
                n == self.entries@.len(),
                i <= n,
                forall|j: int| 0 <= j < i ==> self.keys()[j] != key@,
            decreases n - i,
        {
            if self.entries[i].0 == *key {
                proof {
                    assert(self.keys()[i as int] == key@);
                    assert(self.keys().contains(key@));
                }
                return Some(i);
            }
            i = i + 1;
        }
        proof {
            if self.keys().contains(key@) {
                let j = choose|j: int| 0 <= j < self.keys().len() && self.keys()[j] == key@;
                assert(self.keys()[j] != key@);
            }
        }
        None
    }

    pub fn contains_key(&self, key: &String) -> (b: bool)
        requires
            self.wf(),
        ensures
            b == self@.contains_key(key@),
    {
        self.find(key).is_some()
    }

    /// The value stored under `key`, if any.
    pub fn get(&self, key: &String) -> (r: Option<&V>)
        requires
            self.wf(),
        ensures
            r matches Some(v) ==> self@.contains_key(key@) && *v == self@[key@],
            r is None <==> !self@.contains_key(key@),
    {
        match self.find(key) {
            Some(i) => {
                proof {
                    self.lemma_index(i as int);
                }
                Some(&self.entries[i].1)
            },
            None => None,
        }
    }

    /// Key and value at position `i`.
    pub fn entry_at(&self, i: usize) -> (r: (&String, &V))
        requires
            self.wf(),
            i < self.keys().len(),
        ensures
            r.0@ == self.keys()[i as int],
            *r.1 == self.values()[i as int],
            *r.1 == self@[self.keys()[i as int]],
            self@.contains_key(self.keys()[i as int]),
    {
        proof {
            self.lemma_index(i as int);
        }
        (&self.entries[i].0, &self.entries[i].1)
    }

    /// Stores `value` under `key`, replacing a previous value in place.
    pub fn insert(&mut self, key: String, value: V)
        requires
            old(self).wf(),
        ensures
            final(self).wf(),
            final(self)@ == old(self)@.insert(key@, value),
            old(self)@.contains_key(key@) ==> final(self).keys() == old(self).keys(),
            !old(self)@.contains_key(key@) ==> final(self).keys() == old(self).keys().push(key@),
    {
        let ghost k = key@;
        let ghost old_t = *self;
        match self.find(&key) {
            Some(i) => {
                let ghost old_entries = self.entries@;
                self.entries.set(i, (key, value));
                proof {
                    assert(self.keys() =~= old_t.keys());
                    assert forall|j: int| 0 <= j < self.keys().len() && j != i implies self.values()[j]
                        == old_t.values()[j] by {}
                    assert forall|kk: Seq<char>| #[trigger] self@.contains_key(kk) implies self@[kk]
                        == old_t@.insert(k, value)[kk] by {
                        let j = old_t.index_of(kk);
                        old_t.lemma_index(j);
                        self.lemma_index(j);
                    }
                    assert(self@ =~= old_t@.insert(k, value));
                }
            },
            None => {
                self.entries.push((key, value));
                proof {
                    assert(self.keys() =~= old_t.keys().push(k));
                    assert(self.keys().no_duplicates()) by {
                        assert forall|a: int, b: int|
                            0 <= a < self.keys().len() && 0 <= b < self.keys().len() && a != b implies
                            self.keys()[a] != self.keys()[b] by {
                            if a == old_t.keys().len() as int {
                                assert(old_t.keys().contains(self.keys()[b]));
                            } else if b == old_t.keys().len() as int {
                                assert(old_t.keys().contains(self.keys()[a]));
                            }
                        }
                    }
                    assert forall|kk: Seq<char>| #[trigger] self@.contains_key(kk) implies self@[kk]
                        == old_t@.insert(k, value)[kk] by {
                        if kk == k {
                            self.lemma_index(old_t.keys().len() as int);
                        } else {
                            let j = old_t.index_of(kk);
                            old_t.lemma_index(j);
                            self.lemma_index(j);
                        }
                    }
                    assert forall|kk: Seq<char>| #[trigger] old_t@.insert(k, value).contains_key(kk) implies self@.contains_key(kk) by {
                        if kk == k {
                            assert(self.keys()[old_t.keys().len() as int] == k);
                        } else {
                            let j = old_t.index_of(kk);
                            old_t.lemma_index(j);
                            assert(self.keys()[j] == kk);
                        }
                    }
                    assert(self@ =~= old_t@.insert(k, value));
                }
            },
        }
    }

    /// Replaces the value at position `i`, keeping its key and position;
    /// returns the value it held.
    pub fn replace_value_at(&mut self, i: usize, value: V) -> (prev: V)
        requires
            old(self).wf(),
            i < old(self).keys().len(),
        ensures
            final(self).wf(),
            prev == old(self).values()[i as int],
            final(self).keys() == old(self).keys(),
            final(self).values() == old(self).values().update(i as int, value),
            final(self)@ == old(self)@.insert(old(self).keys()[i as int], value),
    {
        let ghost old_t = *self;
        proof {
            old_t.lemma_index(i as int);
        }
        let (k, prev) = self.entries.remove(i);
        self.entries.insert(i, (k, value));
        proof {
            let key = old_t.keys()[i as int];
            assert(self.keys() =~= old_t.keys());
            assert(self.values() =~= old_t.values().update(i as int, value));
            assert forall|kk: Seq<char>| #[trigger] self@.contains_key(kk) implies self@[kk] == old_t@.insert(key, value)[kk] by {
                let j = old_t.index_of(kk);
                old_t.lemma_index(j);
                self.lemma_index(j);
            }
            assert(self@ =~= old_t@.insert(key, value));
        }
        prev
    }

    /// Removes the entry at position `i`, keeping the order of the others.
    pub fn remove_at(&mut self, i: usize) -> (r: (String, V))
        requires
            old(self).wf(),
            i < old(self).keys().len(),
        ensures
            final(self).wf(),
            r.0@ == old(self).keys()[i as int],
            r.1 == old(self).values()[i as int],
            final(self)@ == old(self)@.remove(r.0@),
            final(self).keys() == old(self).keys().remove(i as int),
            final(self).values() == old(self).values().remove(i as int),
    {
        let ghost old_t = *self;
        proof {
            old_t.lemma_index(i as int);
        }
        let r = self.entries.remove(i);
        proof {
            let k = r.0@;
            assert(self.keys() =~= old_t.keys().remove(i as int));
            assert(self.values() =~= old_t.values().remove(i as int));
            assert(self.keys().no_duplicates()) by {
                assert forall|a: int, b: int|
                    0 <= a < self.keys().len() && 0 <= b < self.keys().len() && a != b implies
                    self.keys()[a] != self.keys()[b] by {
                    let oa = if a < i { a } else { a + 1 };
                    let ob = if b < i { b } else { b + 1 };
                    assert(self.keys()[a] == old_t.keys()[oa]);
                    assert(self.keys()[b] == old_t.keys()[ob]);
                }
            }
            assert forall|kk: Seq<char>| #[trigger] self@.contains_key(kk) implies old_t@.remove(k).contains_key(kk)
                && self@[kk] == old_t@.remove(k)[kk] by {
                let j = self.index_of(kk);
                self.lemma_index(j);
                let oj = if j < i { j } else { j + 1 };
                assert(self.keys()[j] == old_t.keys()[oj]);
                old_t.lemma_index(oj);
                assert(oj != i);
            }
            assert forall|kk: Seq<char>| #[trigger] old_t@.remove(k).contains_key(kk) implies self@.contains_key(kk) by {
                let oj = old_t.index_of(kk);
                old_t.lemma_index(oj);
                assert(oj != i);
                let j = if oj < i { oj } else { oj - 1 };
                assert(self.keys()[j] == kk);
            }
            assert(self@ =~= old_t@.remove(k));
        }
        r
    }

    /// Removes the entry stored under `key`, returning its value.
    pub fn remove(&mut self, key: &String) -> (r: Option<V>)
        requires
            old(self).wf(),
        ensures
            final(self).wf(),
            final(self)@ == old(self)@.remove(key@),
            r matches Some(v) ==> old(self)@.contains_key(key@) && v == old(self)@[key@],
            r is None <==> !old(self)@.contains_key(key@),
    {
        match self.find(key) {
            Some(i) => {
                proof {
                    self.lemma_index(i as int);
                }
                let (_, v) = self.remove_at(i);
                Some(v)
            },
            None => {
                proof {
                    assert(self@ =~= self@.remove(key@));
                }
                None
            },
        }
    }

    /// Removes every entry.
    pub fn clear(&mut self)
        ensures
            final(self).wf(),
            final(self)@ == Map::<Seq<char>, V>::empty(),
            final(self).keys() == Seq::<Seq<char>>::empty(),
    {
        self.entries.clear();
        assert(self.keys() =~= Seq::<Seq<char>>::empty());
        assert(self@ =~= Map::<Seq<char>, V>::empty());
    }
}

} // verus!
