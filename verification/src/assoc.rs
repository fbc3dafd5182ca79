//! A small map held as a list of entries, each key once.

use vstd::prelude::*;

verus! {

/// A key that is compared by its view.
pub trait AssocKey: View + Sized {
    fn same_key(&self, other: &Self) -> (r: bool)
        ensures
            r == (self@ == other@),
    ;
}

/// Entries with distinct keys, in the order in which they were put in.
pub struct AssocList<K, V> {
    pub entries: Vec<(K, V)>,
}

pub open spec fn holds_key<K: View, V>(entries: Seq<(K, V)>, key: K::V) -> bool {
    exists|i: int| 0 <= i < entries.len() && (#[trigger] entries[i]).0@ == key
}

pub open spec fn key_at<K: View, V>(entries: Seq<(K, V)>, key: K::V) -> int {
    choose|i: int| 0 <= i < entries.len() && (#[trigger] entries[i]).0@ == key
}

impl<K: View, V> View for AssocList<K, V> {
    type V = Map<K::V, V>;

    open spec fn view(&self) -> Map<K::V, V> {
        Map::new(
            |key: K::V| holds_key(self.entries@, key),
            |key: K::V| self.entries@[key_at(self.entries@, key)].1,
        )
    }
}

impl<K: AssocKey, V> AssocList<K, V> {
    pub open spec fn well_formed(self) -> bool {
        forall|i: int, j: int|
            0 <= i < j < self.entries@.len() ==> (#[trigger] self.entries@[i]).0@ != (
            #[trigger] self.entries@[j]).0@
    }

    pub proof fn lemma_entry(&self, i: int)
        requires
            self.well_formed(),
            0 <= i < self.entries@.len(),
        ensures
            self@.contains_key(self.entries@[i].0@),
            self@[self.entries@[i].0@] == self.entries@[i].1,
    {
        let key = self.entries@[i].0@;
        assert(holds_key(self.entries@, key));
        let j = key_at(self.entries@, key);
        assert(0 <= j < self.entries@.len() && self.entries@[j].0@ == key);
        if i < j {
            assert(self.entries@[i].0@ != self.entries@[j].0@);
        } else if j < i {
            assert(self.entries@[j].0@ != self.entries@[i].0@);
        }
    }

    pub fn new() -> (r: Self)
        ensures
            r.well_formed(),
            r@ == Map::<K::V, V>::empty(),
    {
        let r = AssocList { entries: Vec::new() };
        assert(r@ =~= Map::<K::V, V>::empty());
        r
    }

    /// The position of a key.
    pub fn find(&self, key: &K) -> (r: Option<usize>)
        requires
            self.well_formed(),
        ensures
            match r {
                Some(i) => i < self.entries@.len() && self.entries@[i as int].0@ == key@
                    && self@.contains_key(key@) && self@[key@] == self.entries@[i as int].1,
                None => !self@.contains_key(key@),
            },
    {
        let mut i: usize = 0;
        while i < self.entries.len()
            invariant
                i <= self.entries.len(),
                self.well_formed(),
                forall|j: int| 0 <= j < i ==> (#[trigger] self.entries@[j]).0@ != key@,
            decreases self.entries.len() - i,
        {
            if self.entries[i].0.same_key(key) {
                proof {
                    self.lemma_entry(i as int);
                }
                return Some(i);
            }
            i = i + 1;
        }
        None
    }

    pub fn get(&self, key: &K) -> (r: Option<&V>)
        requires
            self.well_formed(),
        ensures
            match r {
                Some(value) => self@.contains_key(key@) && self@[key@] == *value,
                None => !self@.contains_key(key@),
            },
    {
        match self.find(key) {
            Some(i) => Some(&self.entries[i].1),
            None => None,
        }
    }

    /// Takes an entry out.
    pub fn remove(&mut self, key: &K) -> (r: Option<V>)
        requires
            old(self).well_formed(),
        ensures
            final(self).well_formed(),
            final(self)@ == old(self)@.remove(key@),
            match r {
                Some(value) => old(self)@.contains_key(key@) && old(self)@[key@] == value,
                None => !old(self)@.contains_key(key@),
            },
    {
        match self.find(key) {
            None => {
                assert(self@ =~= old(self)@.remove(key@));
                None
            },
            Some(i) => {
                let ghost before = *self;
                let entry = self.entries.remove(i);
                proof {
                    let after = self.entries@;
                    assert forall|a: int, b: int| 0 <= a < b < after.len() implies (
                    #[trigger] after[a]).0@ != (#[trigger] after[b]).0@ by {
                        let x = if a < i { a } else { a + 1 };
                        let y = if b < i { b } else { b + 1 };
                        assert(before.entries@[x].0@ != before.entries@[y].0@);
                    }
                    let expected = before@.remove(key@);
                    assert forall|k: K::V| self@.contains_key(k) == expected.contains_key(k) by {
                        if holds_key(before.entries@, k) && k != key@ {
                            let j = key_at(before.entries@, k);
                            let x = if j < i { j } else { j - 1 };
                            assert(after[x].0@ == k);
                        }
                        if holds_key(after, k) {
                            let j = key_at(after, k);
                            let x = if j < i { j } else { j + 1 };
                            assert(before.entries@[x].0@ == k);
                            if x < i {
                                assert(before.entries@[x].0@ != before.entries@[i as int].0@);
                            } else {
                                assert(before.entries@[i as int].0@ != before.entries@[x].0@);
                            }
                        }
                    }
                    assert forall|k: K::V| self@.contains_key(k) implies self@[k] == expected[k] by {
                        assert(holds_key(after, k));
                        let j = key_at(after, k);
                        let x = if j < i { j } else { j + 1 };
                        self.lemma_entry(j);
                        before.lemma_entry(x);
                    }
                    assert(self@ =~= expected);
                }
                Some(entry.1)
            },
        }
    }

    /// Puts an entry in under a key that has none.
    pub fn insert_new(&mut self, key: K, value: V)
        requires
            old(self).well_formed(),
            !old(self)@.contains_key(key@),
        ensures
            final(self).well_formed(),
            final(self)@ == old(self)@.insert(key@, value),
    {
        let ghost before = *self;
        self.entries.push((key, value));
        proof {
            let after = self.entries@;
            let n = before.entries@.len() as int;
            assert(after[n].0@ == key@);
            assert forall|a: int, b: int| 0 <= a < b < after.len() implies (#[trigger] after[a]).0@
                != (#[trigger] after[b]).0@ by {
                if b < n {
                    assert(before.entries@[a].0@ != before.entries@[b].0@);
                } else {
                    assert(before.entries@[a].0@ == after[a].0@);
                    assert(holds_key(before.entries@, after[a].0@));
                }
            }
            let expected = before@.insert(key@, value);
            assert forall|k: K::V| self@.contains_key(k) == expected.contains_key(k) by {
                if holds_key(before.entries@, k) {
                    let j = key_at(before.entries@, k);
                    assert(after[j].0@ == k);
                }
                if holds_key(after, k) {
                    let j = key_at(after, k);
                    if j < n {
                        assert(before.entries@[j].0@ == k);
                    }
                }
            }
            assert forall|k: K::V| self@.contains_key(k) implies self@[k] == expected[k] by {
                assert(holds_key(after, k));
                let j = key_at(after, k);
                self.lemma_entry(j);
                if j < n {
                    before.lemma_entry(j);
                }
            }
            assert(self@ =~= expected);
        }
    }

    /// Puts an entry in, in place of one that the key may have.
    pub fn insert(&mut self, key: K, value: V)
        requires
            old(self).well_formed(),
        ensures
            final(self).well_formed(),
            final(self)@ == old(self)@.insert(key@, value),
    {
        let ghost before = self@;
        let _ = self.remove(&key);
        let ghost middle = self@;
        self.insert_new(key, value);
        assert(middle.insert(key@, value) =~= before.insert(key@, value));
    }
}

} // verus!
