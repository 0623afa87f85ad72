//! A table keyed by text.

use crate::text::same;
use vstd::prelude::*;

verus! {

/// A table with text keys.
///
/// Its view is the map from each key to the view of its value. No key occurs twice.
pub struct Table<T> {
    keys: Vec<String>,
    values: Vec<T>,
}

impl<T> Table<T> {
    /// The keys, in the order in which they came in.
    pub closed spec fn key_list(self) -> Seq<Seq<char>> {
        crate::text::views(self.keys@)
    }

    /// The values, in the order of their keys.
    pub closed spec fn value_list(self) -> Seq<T> {
        self.values@
    }

    /// Every key has one value, and no key occurs twice.
    pub open spec fn wf(self) -> bool {
        &&& self.key_list().len() == self.value_list().len()
        &&& self.key_list().no_duplicates()
    }
}

impl<T: View> View for Table<T> {
    type V = Map<Seq<char>, T::V>;

    closed spec fn view(&self) -> Map<Seq<char>, T::V> {
        Map::new(
            |key: Seq<char>| self.key_list().contains(key),
            |key: Seq<char>| self.value_list()[self.key_list().index_of(key)]@,
        )
    }
}

impl<T: View> Table<T> {
    /// The view has the keys that the list has.
    pub proof fn lemma_keys(self, key: Seq<char>)
        ensures
            self@.dom().contains(key) == self.key_list().contains(key),
    {
    }
}

/// What the view says at the key in position `i`.
proof fn lemma_entry<T: View>(table: Table<T>, i: int)
    requires
        table.wf(),
        0 <= i < table.key_list().len(),
    ensures
        table@.dom().contains(table.key_list()[i]),
        table@[table.key_list()[i]] == table.value_list()[i]@,
{
    let key = table.key_list()[i];
    assert(table.key_list().contains(key));
    let at = table.key_list().index_of(key);
    assert(table.key_list()[at] == key);
    assert(at == i);
}

impl<T: View> Table<T> {
    /// An empty table.
    pub fn new() -> (table: Self)
        ensures
            table.wf(),
            table@ == Map::<Seq<char>, T::V>::empty(),
    {
        let table = Table { keys: Vec::new(), values: Vec::new() };
        assert(table@ =~= Map::<Seq<char>, T::V>::empty());
        table
    }

    /// The position of a key.
    fn position(&self, key: &str) -> (at: Option<usize>)
        requires
            self.wf(),
        ensures
            at is Some == self@.dom().contains(key@),
            at matches Some(i) ==> i < self.key_list().len() && self.key_list()[i as int] == key@,
    {
        for i in 0..self.keys.len()
            invariant
                forall|j: int| 0 <= j < i ==> self.key_list()[j] != key@,
        {
            if same(self.keys[i].as_str(), key) {
                assert(self.key_list()[i as int] == key@);
                return Some(i);
            }
        }
        None
    }

    /// Whether the table holds `key`.
    pub fn contains_key(&self, key: &str) -> (found: bool)
        requires
            self.wf(),
        ensures
            found == self@.dom().contains(key@),
    {
        self.position(key).is_some()
    }

    /// The value of `key`.
    pub fn get(&self, key: &str) -> (value: Option<&T>)
        requires
            self.wf(),
        ensures
            value is Some == self@.dom().contains(key@),
            value matches Some(v) ==> v@ == self@[key@],
    {
        match self.position(key) {
            Some(i) => {
                proof {
                    lemma_entry(*self, i as int);
                }
                Some(&self.values[i])
            },
            None => None,
        }
    }

    /// The value of `key`, to be changed in place.
    pub fn get_mut(&mut self, key: &str) -> (value: Option<&mut T>)
        requires
            old(self).wf(),
        ensures
            value is Some == old(self)@.dom().contains(key@),
            value matches Some(v) ==> (*v)@ == old(self)@[key@] && final(self)@ == old(
                self,
            )@.insert(key@, (*final(v))@),
            value is None ==> final(self)@ == old(self)@,
            final(self).wf(),
    {
        match self.position(key) {
            Some(i) => {
                proof {
                    lemma_entry(*self, i as int);
                }
                Some(&mut self.values[i])
            },
            None => None,
        }
    }

    /// Gives `key` the value `value`, in place of the one that it has.
    pub fn insert(&mut self, key: String, value: T)
        requires
            old(self).wf(),
        ensures
            final(self).wf(),
            final(self)@ == old(self)@.insert(key@, value@),
    {
        match self.get_mut(key.as_str()) {
            Some(slot) => {
                *slot = value;
            },
            None => {
                self.append_entry(key, value);
            },
        }
    }

    fn append_entry(&mut self, key: String, value: T)
        requires
            old(self).wf(),
            !old(self)@.dom().contains(key@),
        ensures
            final(self).wf(),
            final(self)@ == old(self)@.insert(key@, value@),
    {
        let ghost before = *self;
        let n = self.keys.len();
        self.keys.push(key);
        self.values.push(value);
        proof {
            assert(self.key_list() =~= before.key_list().push(key@));
            assert(self.wf());
            assert forall|k: Seq<char>| #[trigger]
                self@.dom().contains(k) == before@.insert(key@, value@).dom().contains(k) by {
                if before.key_list().contains(k) {
                    let at = before.key_list().index_of(k);
                    assert(self.key_list()[at] == k);
                }
                if k == key@ {
                    assert(self.key_list()[n as int] == k);
                }
            }
            assert forall|k: Seq<char>| #[trigger] self@.dom().contains(k) implies self@[k]
                == before@.insert(key@, value@)[k] by {
                let at = self.key_list().index_of(k);
                assert(self.key_list()[at] == k);
                lemma_entry(*self, at);
                if at < n {
                    lemma_entry(before, at);
                }
            }
            assert(self@ =~= before@.insert(key@, value@));
        }
    }

    /// Takes out the entry in position `at`.
    fn remove_at(&mut self, at: usize) -> (value: T)
        requires
            old(self).wf(),
            at < old(self).key_list().len(),
        ensures
            final(self).wf(),
            final(self).key_list() == old(self).key_list().remove(at as int),
            final(self).value_list() == old(self).value_list().remove(at as int),
            final(self)@ == old(self)@.remove(old(self).key_list()[at as int]),
            value@ == old(self)@[old(self).key_list()[at as int]],
    {
        let ghost before = *self;
        let key = self.keys.remove(at);
        let value = self.values.remove(at);
        proof {
            lemma_entry(before, at as int);
            assert(key@ == before.key_list()[at as int]);
            assert(self.key_list() =~= before.key_list().remove(at as int));
            assert forall|k: Seq<char>| #[trigger]
                self@.dom().contains(k) == before@.remove(key@).dom().contains(k) by {
                if before.key_list().contains(k) && k != key@ {
                    let i = before.key_list().index_of(k);
                    if i < at {
                        assert(self.key_list()[i] == k);
                    } else {
                        assert(self.key_list()[i - 1] == k);
                    }
                }
                if self.key_list().contains(k) {
                    let i = self.key_list().index_of(k);
                    if i < at {
                        assert(before.key_list()[i] == k);
                    } else {
                        assert(before.key_list()[i + 1] == k);
                    }
                }
            }
            assert forall|k: Seq<char>| #[trigger] self@.dom().contains(k) implies self@[k]
                == before@.remove(key@)[k] by {
                let i = self.key_list().index_of(k);
                assert(self.key_list()[i] == k);
                lemma_entry(*self, i);
                if i < at {
                    lemma_entry(before, i);
                } else {
                    lemma_entry(before, i + 1);
                }
            }
            assert(self@ =~= before@.remove(key@));
        }
        value
    }

    /// Takes out `key`.
    pub fn remove(&mut self, key: &str) -> (value: Option<T>)
        requires
            old(self).wf(),
        ensures
            final(self).wf(),
            final(self)@ == old(self)@.remove(key@),
            value is Some == old(self)@.dom().contains(key@),
            value matches Some(v) ==> v@ == old(self)@[key@],
    {
        match self.position(key) {
            Some(i) => Some(self.remove_at(i)),
            None => {
                assert(self@.remove(key@) =~= self@);
                None
            },
        }
    }

    /// The number of keys.
    pub fn len(&self) -> (n: usize)
        requires
            self.wf(),
        ensures
            n == self@.len(),
            n == self.key_list().len(),
    {
        proof {
            self.key_list().unique_seq_to_set();
            assert(self@.dom() =~= self.key_list().to_set());
        }
        self.keys.len()
    }

    /// The value in position `at`.
    pub fn value_at(&self, at: usize) -> (value: &T)
        requires
            self.wf(),
            at < self.key_list().len(),
        ensures
            *value == self.value_list()[at as int],
            value@ == self@[self.key_list()[at as int]],
    {
        proof {
            lemma_entry(*self, at as int);
        }
        &self.values[at]
    }

    /// Keeps the entries whose mark in `keep` is true, and takes out the others.
    pub fn retain(&mut self, keep: &Vec<bool>)
        requires
            old(self).wf(),
            keep@.len() == old(self).key_list().len(),
        ensures
            final(self).wf(),
            forall|key: Seq<char>| #[trigger]
                final(self)@.dom().contains(key) ==> old(self)@.dom().contains(key)
                    && final(self)@[key] == old(self)@[key],
            forall|i: int|
                0 <= i < keep@.len() ==> final(self)@.dom().contains(
                    #[trigger] old(self).key_list()[i],
                ) == keep@[i],
    {
        let ghost before = *self;
        let mut i: usize = keep.len();
        while i > 0
            invariant
                i <= keep@.len(),
                keep@.len() == before.key_list().len(),
                before.wf(),
                self.wf(),
                i <= self.key_list().len(),
                forall|j: int| 0 <= j < i ==> self.key_list()[j] == before.key_list()[j],
                forall|k: Seq<char>| #[trigger]
                    self@.dom().contains(k) ==> before@.dom().contains(k) && self@[k] == before@[k],
                forall|j: int|
                    i <= j < keep@.len() ==> self@.dom().contains(#[trigger] before.key_list()[j])
                        == keep@[j],
            decreases i,
        {
            i -= 1;
            let ghost key = before.key_list()[i as int];
            assert(self.key_list()[i as int] == key);
            proof {
                lemma_entry(*self, i as int);
            }
            let ghost current = self@;
            if !keep[i] {
                self.remove_at(i);
                assert(self@ == current.remove(key));
            }
            assert forall|k: Seq<char>| #[trigger]
                self@.dom().contains(k) implies before@.dom().contains(k) && self@[k]
                == before@[k] by {
                assert(current.dom().contains(k));
            }
        }
    }
}

} // verus!
