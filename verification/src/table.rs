//! Values that are found by text.
use vstd::prelude::*;

verus! {

/// A table of values with a text for a key, each key there at most once. The values keep the order
/// in which their keys first came.
#[derive(Debug)]
pub struct Table<V> {
    pub entries: Vec<(String, V)>,
}

/// Whether a key is among those of the entries.
pub open spec fn has_key<V>(entries: Seq<(String, V)>, key: Seq<char>) -> bool {
    exists|i: int| 0 <= i < entries.len() && (#[trigger] entries[i]).0@ == key
}

/// Where a key is among those of the entries.
pub open spec fn key_index<V>(entries: Seq<(String, V)>, key: Seq<char>) -> int {
    choose|i: int| 0 <= i < entries.len() && (#[trigger] entries[i]).0@ == key
}

/// Whether no key is there twice.
pub open spec fn distinct_keys<V>(entries: Seq<(String, V)>) -> bool {
    forall|i: int, j: int|
        0 <= i < j < entries.len() ==> (#[trigger] entries[i]).0@ != (#[trigger] entries[j]).0@
}

impl<V: View> View for Table<V> {
    type V = Map<Seq<char>, V::V>;

    open spec fn view(&self) -> Map<Seq<char>, V::V> {
        Map::new(
            |key: Seq<char>| has_key(self.entries@, key),
            |key: Seq<char>| self.entries@[key_index(self.entries@, key)].1@,
        )
    }
}

impl<V: View> Table<V> {
    /// Whether no key is there twice.
    pub open spec fn wf(&self) -> bool {
        distinct_keys(self.entries@)
    }

    /// The value of a key is that of the one entry with the key.
    pub proof fn lemma_entry(&self, i: int)
        requires
            self.wf(),
            0 <= i < self.entries@.len(),
        ensures
            self@.contains_key(self.entries@[i].0@),
            self@[self.entries@[i].0@] == self.entries@[i].1@,
    {
        let key = self.entries@[i].0@;
        assert(has_key(self.entries@, key));
        let j = key_index(self.entries@, key);
        assert(0 <= j < self.entries@.len() && self.entries@[j].0@ == key);
        assert(j == i);
    }

    /// A table without entries.
    pub fn new() -> (res: Table<V>)
        ensures
            res.wf(),
            res@ == Map::<Seq<char>, V::V>::empty(),
            res.entries@ == Seq::<(String, V)>::empty(),
    {
        let res: Table<V> = Table { entries: Vec::new() };
        assert(res@ =~= Map::<Seq<char>, V::V>::empty());
        res
    }

    /// Where a key is.
    pub fn find(&self, key: &String) -> (res: Option<usize>)
        requires
            self.wf(),
        ensures
            match res {
                Some(i) => {
                    &&& i < self.entries@.len()
                    &&& self.entries@[i as int].0@ == key@
                    &&& self@.contains_key(key@)
                    &&& self@[key@] == self.entries@[i as int].1@
                },
                None => !self@.contains_key(key@),
            },
    {
        let mut i: usize = 0;
        while i < self.entries.len()
            invariant
                self.wf(),
                i <= self.entries@.len(),
                forall|j: int| 0 <= j < i ==> (#[trigger] self.entries@[j]).0@ != key@,
            decreases self.entries@.len() - i,
        {
            if self.entries[i].0 == *key {
                proof {
                    self.lemma_entry(i as int);
                }
                return Some(i);
            }
            i = i + 1;
        }
        None
    }

    /// The value of a key.
    pub fn get(&self, key: &String) -> (res: Option<&V>)
        requires
            self.wf(),
        ensures
            match res {
                Some(value) => self@.contains_key(key@) && self@[key@] == value@,
                None => !self@.contains_key(key@),
            },
    {
        match self.find(key) {
            Some(i) => Some(&self.entries[i].1),
            None => None,
        }
    }

    /// A table in which the value of one entry is replaced.
    proof fn lemma_update(self, i: int, value: V, updated: Table<V>)
        requires
            self.wf(),
            0 <= i < self.entries@.len(),
            updated.entries@ == self.entries@.update(i, (self.entries@[i].0, value)),
        ensures
            updated.wf(),
            updated@ == self@.insert(self.entries@[i].0@, value@),
    {
        let key = self.entries@[i].0@;
        assert(forall|j: int|
            0 <= j < self.entries@.len() ==> (#[trigger] updated.entries@[j]).0@
                == self.entries@[j].0@);
        assert forall|k: Seq<char>| has_key(updated.entries@, k) == has_key(self.entries@, k) by {
            if has_key(self.entries@, k) {
                let j = key_index(self.entries@, k);
                assert(updated.entries@[j].0@ == k);
            }
            if has_key(updated.entries@, k) {
                let j = key_index(updated.entries@, k);
                assert(self.entries@[j].0@ == k);
            }
        }
        self.lemma_entry(i);
        assert forall|k: Seq<char>| has_key(updated.entries@, k) implies updated@[k]
            == self@.insert(key, value@)[k] by {
            let j = key_index(updated.entries@, k);
            assert(updated.entries@[j].0@ == k);
            self.lemma_entry(j);
            updated.lemma_entry(j);
        }
        assert(updated@ =~= self@.insert(key, value@));
    }

    /// The value of the entry at an index, for changing it.
    pub fn value_mut(&mut self, i: usize) -> (res: &mut V)
        requires
            old(self).wf(),
            i < old(self).entries@.len(),
        ensures
            *res == old(self).entries@[i as int].1,
            final(self).wf(),
            final(self).entries@ == old(self).entries@.update(
                i as int,
                (old(self).entries@[i as int].0, *final(res)),
            ),
            final(self)@ == old(self)@.insert(old(self).entries@[i as int].0@, final(res)@),
    {
        proof {
            assert forall|value: V, updated: Table<V>|
                #![trigger
                    self.entries@.update(i as int, (self.entries@[i as int].0, value)),
                    updated.entries@]
                updated.entries@ == self.entries@.update(
                    i as int,
                    (self.entries@[i as int].0, value),
                ) implies updated.wf() && updated@ == self@.insert(
                self.entries@[i as int].0@,
                value@,
            ) by {
                self.lemma_update(i as int, value, updated);
            }
        }
        &mut self.entries[i].1
    }

    /// Adds an entry with a key that is not there yet.
    pub fn insert_new(&mut self, key: String, value: V)
        requires
            old(self).wf(),
            !old(self)@.contains_key(key@),
        ensures
            final(self).wf(),
            final(self)@ == old(self)@.insert(key@, value@),
            final(self).entries@ == old(self).entries@.push((key, value)),
    {
        self.entries.push((key, value));
        proof {
            let n = old(self).entries@.len() as int;
            assert(self.entries@[n].0@ == key@);
            assert forall|i: int, j: int| 0 <= i < j < self.entries@.len() implies (
            #[trigger] self.entries@[i]).0@ != (#[trigger] self.entries@[j]).0@ by {
                assert(self.entries@[i] == old(self).entries@[i]);
                if j == n {
                    assert(has_key(old(self).entries@, old(self).entries@[i].0@));
                } else {
                    assert(self.entries@[j] == old(self).entries@[j]);
                }
            }
            assert forall|k: Seq<char>| has_key(self.entries@, k) == (has_key(
                old(self).entries@,
                k,
            ) || k == key@) by {
                if has_key(old(self).entries@, k) {
                    let j = key_index(old(self).entries@, k);
                    assert(self.entries@[j].0@ == k);
                }
                if has_key(self.entries@, k) {
                    let j = key_index(self.entries@, k);
                    if j < n {
                        assert(old(self).entries@[j].0@ == k);
                    }
                }
            }
            assert forall|k: Seq<char>| has_key(self.entries@, k) implies self@[k] == old(self)@.insert(key@, value@)[k] by {
                let j = key_index(self.entries@, k);
                assert(self.entries@[j].0@ == k);
                self.lemma_entry(j);
                if j < n {
                    assert(self.entries@[j] == old(self).entries@[j]);
                    old(self).lemma_entry(j);
                }
            }
            assert(self@ =~= old(self)@.insert(key@, value@));
        }
    }
}

} // verus!
