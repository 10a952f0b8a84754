//! The key/value store that commands read and write.

use vstd::prelude::*;

use crate::redis::{Data, DataView};

verus! {

/// A map from keys to stored values; each key occurs once.
#[derive(Debug)]
pub struct Store {
    entries: Vec<(String, Data)>,
}

impl Store {
    /// Each key occurs once, and every expiry time is one that
    /// `DateTime<Utc>` can hold.
    #[verifier::type_invariant]
    spec fn well_formed(&self) -> bool {
        &&& forall|i: int, j: int|
            0 <= i < j < self.entries@.len() ==> #[trigger] self.entries@[i].0@
                != #[trigger] self.entries@[j].0@
        &&& forall|i: int| 0 <= i < self.entries@.len() ==> #[trigger] self.entries@[i].1.valid()
    }

    spec fn has(&self, k: Seq<char>) -> bool {
        exists|i: int| 0 <= i < self.entries@.len() && #[trigger] self.entries@[i].0@ == k
    }

    spec fn index_of(&self, k: Seq<char>) -> int {
        choose|i: int| 0 <= i < self.entries@.len() && #[trigger] self.entries@[i].0@ == k
    }

    /// The keys and the values they map to.
    pub closed spec fn contents(&self) -> Map<Seq<char>, DataView> {
        Map::new(|k: Seq<char>| self.has(k), |k: Seq<char>| self.entries@[self.index_of(k)].1@)
    }

    /// The value of an entry is what the map gives for its key.
    proof fn lemma_entry(&self, i: int)
        requires
            0 <= i < self.entries@.len(),
            self.well_formed(),
        ensures
            self.contents().contains_key(self.entries@[i].0@),
            self.contents()[self.entries@[i].0@] == self.entries@[i].1@,
    {
        let k = self.entries@[i].0@;
        assert(self.has(k));
        let j = self.index_of(k);
        if j != i {
            if j < i {
                assert(self.entries@[j].0@ != self.entries@[i].0@);
            } else {
                assert(self.entries@[i].0@ != self.entries@[j].0@);
            }
        }
    }

    /// An empty store.
    pub fn new() -> (r: Self)
        ensures
            r@ == Map::<Seq<char>, DataView>::empty(),
    {
        let r = Store { entries: Vec::new() };
        assert(r@ =~= Map::<Seq<char>, DataView>::empty());
        r
    }

    /// The index of `key`'s entry, if it has one.
    fn find(&self, key: &str) -> (r: Option<usize>)
        ensures
            r matches Some(i) ==> i < self.entries@.len() && self.entries@[i as int].0@ == key@,
            r is None ==> !self.has(key@),
    {
        let mut i: usize = 0;
        while i < self.entries.len()
            invariant
                0 <= i <= self.entries@.len(),
                forall|j: int| 0 <= j < i ==> #[trigger] self.entries@[j].0@ != key@,
            decreases self.entries@.len() - i,
        {
            if crate::redis::text::same_text(self.entries[i].0.as_str(), key) {
                return Some(i);
            }
            i = i + 1;
        }
        None
    }

    /// The value stored under `key`, if any.
    pub fn get(&self, key: &str) -> (r: Option<&Data>)
        ensures
            r is Some <==> self@.contains_key(key@),
            r matches Some(d) ==> d@ == self@[key@] && d.valid(),
    {
        proof {
            use_type_invariant(self);
        }
        match self.find(key) {
            Some(i) => {
                proof {
                    self.lemma_entry(i as int);
                }
                Some(&self.entries[i].1)
            },
            None => None,
        }
    }

    /// Stores `data` under `key`, replacing what was there.
    pub fn insert(&mut self, key: String, data: Data)
        requires
            data.valid(),
        ensures
            final(self)@ == old(self)@.insert(key@, data@),
    {
        proof {
            use_type_invariant(&*self);
        }
        let ghost old_store = *self;
        let ghost k = key@;
        let ghost v = data@;
        match self.find(key.as_str()) {
            Some(i) => {
                let mut entries = Vec::new();
                std::mem::swap(&mut entries, &mut self.entries);
                entries.set(i, (key, data));
                self.entries = entries;
                proof {
                    assert forall|k2: Seq<char>| #[trigger]
                        self@.contains_key(k2) == old_store@.insert(k, v).contains_key(k2) by {
                        if k2 != k && old_store.has(k2) {
                            let w = old_store.index_of(k2);
                            assert(self.entries@[w].0@ == k2);
                        }
                        if self.has(k2) && k2 != k {
                            let w = self.index_of(k2);
                            assert(old_store.entries@[w].0@ == k2);
                        }
                        if k2 == k {
                            assert(self.entries@[i as int].0@ == k);
                        }
                    }
                    assert forall|k2: Seq<char>| #[trigger]
                        self@.contains_key(k2) implies self@[k2] == old_store@.insert(k, v)[k2] by {
                        let w = self.index_of(k2);
                        self.lemma_entry(w);
                        if k2 != k {
                            old_store.lemma_entry(w);
                        }
                    }
                    assert(self@ =~= old_store@.insert(k, v));
                }
            },
            None => {
                let mut entries = Vec::new();
                std::mem::swap(&mut entries, &mut self.entries);
                entries.push((key, data));
                proof {
                    let n = old_store.entries@.len() as int;
                    assert forall|a: int, b: int| 0 <= a < b < entries@.len() implies #[trigger]
                        entries@[a].0@ != #[trigger] entries@[b].0@ by {
                        assert(entries@[a] == old_store.entries@[a]);
                        if b < n {
                            assert(entries@[b] == old_store.entries@[b]);
                        } else {
                            assert(b == n);
                            assert(entries@[b].0@ == k);
                            assert(!old_store.has(k));
                            assert(old_store.entries@[a].0@ != k);
                        }
                    }
                    assert forall|a: int| 0 <= a < entries@.len() implies #[trigger]
                        entries@[a].1.valid() by {
                        if a < n {
                            assert(entries@[a] == old_store.entries@[a]);
                        }
                    }
                }
                self.entries = entries;
                proof {
                    let n = old_store.entries@.len();
                    assert forall|k2: Seq<char>| #[trigger]
                        self@.contains_key(k2) == old_store@.insert(k, v).contains_key(k2) by {
                        if k2 != k && old_store.has(k2) {
                            let w = old_store.index_of(k2);
                            assert(self.entries@[w].0@ == k2);
                        }
                        if self.has(k2) && k2 != k {
                            let w = self.index_of(k2);
                            assert(w != n);
                            assert(old_store.entries@[w].0@ == k2);
                        }
                        if k2 == k {
                            assert(self.entries@[n as int].0@ == k);
                        }
                    }
                    assert forall|k2: Seq<char>| #[trigger]
                        self@.contains_key(k2) implies self@[k2] == old_store@.insert(k, v)[k2] by {
                        let w = self.index_of(k2);
                        self.lemma_entry(w);
                        if k2 != k {
                            assert(w != n);
                            old_store.lemma_entry(w);
                        }
                    }
                    assert(self@ =~= old_store@.insert(k, v));
                }
            },
        }
    }

    /// Removes `key` and its value, if it is there.
    pub fn remove(&mut self, key: &str)
        ensures
            final(self)@ == old(self)@.remove(key@),
    {
        proof {
            use_type_invariant(&*self);
        }
        let ghost old_store = *self;
        let ghost k = key@;
        match self.find(key) {
            Some(i) => {
                let mut entries = Vec::new();
                std::mem::swap(&mut entries, &mut self.entries);
                entries.remove(i);
                proof {
                    let old_entries = old_store.entries@;
                    assert forall|a: int, b: int| 0 <= a < b < entries@.len() implies #[trigger]
                        entries@[a].0@ != #[trigger] entries@[b].0@ by {
                        let a2 = if a < i { a } else { a + 1 };
                        let b2 = if b < i { b } else { b + 1 };
                        assert(entries@[a] == old_entries[a2]);
                        assert(entries@[b] == old_entries[b2]);
                        assert(old_entries[a2].0@ != old_entries[b2].0@);
                    }
                    assert forall|a: int| 0 <= a < entries@.len() implies #[trigger]
                        entries@[a].1.valid() by {
                        let a2 = if a < i { a } else { a + 1 };
                        assert(entries@[a] == old_entries[a2]);
                    }
                }
                self.entries = entries;
                proof {
                    assert forall|k2: Seq<char>| #[trigger]
                        self@.contains_key(k2) == old_store@.remove(k).contains_key(k2) by {
                        if k2 != k && old_store.has(k2) {
                            let w = old_store.index_of(k2);
                            assert(w != i);
                            if w < i {
                                assert(self.entries@[w].0@ == k2);
                            } else {
                                assert(self.entries@[w - 1].0@ == k2);
                            }
                        }
                        if self.has(k2) {
                            let w = self.index_of(k2);
                            if w < i {
                                assert(old_store.entries@[w].0@ == k2);
                                assert(old_store.entries@[w].0@ != old_store.entries@[i as int].0@);
                            } else {
                                assert(old_store.entries@[w + 1].0@ == k2);
                                assert(old_store.entries@[i as int].0@ != old_store.entries@[w
                                    + 1].0@);
                            }
                        }
                    }
                    assert forall|k2: Seq<char>| #[trigger]
                        self@.contains_key(k2) implies self@[k2] == old_store@.remove(k)[k2] by {
                        let w = self.index_of(k2);
                        self.lemma_entry(w);
                        if w < i {
                            old_store.lemma_entry(w);
                        } else {
                            old_store.lemma_entry(w + 1);
                        }
                    }
                    assert(self@ =~= old_store@.remove(k));
                }
            },
            None => {
                proof {
                    assert(old_store@ =~= old_store@.remove(k));
                }
            },
        }
    }
}

impl View for Store {
    type V = Map<Seq<char>, DataView>;

    closed spec fn view(&self) -> Map<Seq<char>, DataView> {
        self.contents()
    }
}

} // verus!
