//! A table keyed by name.
use vstd::prelude::*;

use crate::text::same_text;

verus! {

/// Values filed under names, at most one under each name.
///
/// The entries stand in the order in which their names came in, so that a table can be walked
/// by position.
pub struct NameTable<V> {
    entries: Vec<(String, V)>,
}

impl<V> View for NameTable<V> {
    type V = Map<Seq<char>, V>;

    closed spec fn view(&self) -> Map<Seq<char>, V> {
        Map::new(
            |name: Seq<char>| self.names().contains(name),
            |name: Seq<char>| self.entries@[self.names().index_of(name)].1,
        )
    }
}

impl<V> NameTable<V> {
    /// The names in the order of their positions.
    pub closed spec fn names(self) -> Seq<Seq<char>> {
        self.entries@.map_values(|entry: (String, V)| entry.0@)
    }

    /// No name occurs twice.
    pub open spec fn wf(self) -> bool {
        self.names().no_duplicates()
    }

    /// The domain of a table is the set of its names, and its size is their number.
    pub proof fn lemma_names(self)
        requires
            self.wf(),
        ensures
            self@.dom() == self.names().to_set(),
            self@.dom().finite(),
            self@.len() == self.names().len(),
    {
        assert(self@.dom() =~= self.names().to_set());
        self.names().unique_seq_to_set();
        vstd::seq_lib::seq_to_set_is_finite(self.names());
    }

    proof fn lemma_position(self, i: int)
        requires
            self.wf(),
            0 <= i < self.entries@.len(),
        ensures
            self.names().len() == self.entries@.len(),
            self.names()[i] == self.entries@[i].0@,
            self@.contains_pair(self.names()[i], self.entries@[i].1),
    {
        let name = self.names()[i];
        assert(self.names().contains(name));
        let k = self.names().index_of(name);
        assert(self.names()[k] == name);
    }

    /// A table with no entries.
    pub fn new() -> (table: Self)
        ensures
            table.wf(),
            table.names() == Seq::<Seq<char>>::empty(),
            table@ == Map::<Seq<char>, V>::empty(),
    {
        let table = NameTable { entries: Vec::new() };
        assert(table.names() =~= Seq::<Seq<char>>::empty());
        assert(table@ =~= Map::<Seq<char>, V>::empty());
        table
    }

    /// The number of entries.
    pub fn len(&self) -> (n: usize)
        requires
            self.wf(),
        ensures
            n == self.names().len(),
            n == self@.len(),
    {
        proof {
            self.lemma_names();
        }
        self.entries.len()
    }

    /// The name at a position.
    pub fn name_at(&self, i: usize) -> (name: &String)
        requires
            i < self.names().len(),
        ensures
            name@ == self.names()[i as int],
    {
        &self.entries[i].0
    }

    /// The value at a position.
    pub fn at(&self, i: usize) -> (value: &V)
        requires
            self.wf(),
            i < self.names().len(),
        ensures
            self@.contains_pair(self.names()[i as int], *value),
    {
        proof {
            self.lemma_position(i as int);
        }
        &self.entries[i].1
    }

    /// The value at a position, to be changed in place.
    pub fn at_mut(&mut self, i: usize) -> (value: &mut V)
        requires
            old(self).wf(),
            i < old(self).names().len(),
        ensures
            old(self)@.contains_pair(old(self).names()[i as int], *value),
            final(self).wf(),
            final(self).names() == old(self).names(),
            final(self)@ == old(self)@.insert(old(self).names()[i as int], *final(value)),
    {
        proof {
            self.lemma_position(i as int);
        }
        let ghost before = *self;
        let value = &mut self.entries[i].1;
        proof {
            let after = NameTable { entries: after_borrow(self.entries) };
            assert(after.names() =~= before.names());
            assert(after@ =~= before@.insert(before.names()[i as int], *final(value)));
        }
        value
    }

    /// The position of a name.
    pub fn find(&self, name: &str) -> (found: Option<usize>)
        ensures
            match found {
                Some(i) => i < self.names().len() && self.names()[i as int] == name@,
                None => !self.names().contains(name@),
            },
    {
        let mut i: usize = 0;
        while i < self.entries.len()
            invariant
                i <= self.entries@.len(),
                forall|k: int| 0 <= k < i ==> self.entries@[k].0@ != name@,
            decreases self.entries@.len() - i,
        {
            if same_text(self.entries[i].0.as_str(), name) {
                return Some(i);
            }
            i += 1;
        }
        None
    }

    /// Whether the table has an entry under a name.
    pub fn contains_key(&self, name: &str) -> (found: bool)
        ensures
            found == self@.contains_key(name@),
    {
        self.find(name).is_some()
    }

    /// The value under a name.
    pub fn get(&self, name: &str) -> (found: Option<&V>)
        requires
            self.wf(),
        ensures
            match found {
                Some(value) => self@.contains_pair(name@, *value),
                None => !self@.contains_key(name@),
            },
    {
        match self.find(name) {
            Some(i) => Some(self.at(i)),
            None => None,
        }
    }

    /// Files a value under a name and hands back the value that stood there.
    pub fn insert(&mut self, name: String, value: V) -> (previous: Option<V>)
        requires
            old(self).wf(),
        ensures
            final(self).wf(),
            final(self)@ == old(self)@.insert(name@, value),
            match previous {
                Some(former) => old(self)@.contains_pair(name@, former),
                None => !old(self)@.contains_key(name@),
            },
    {
        let ghost before = *self;
        match self.find(name.as_str()) {
            Some(i) => {
                proof {
                    self.lemma_position(i as int);
                }
                let mut held: (String, V) = (name, value);
                std::mem::swap(&mut self.entries[i], &mut held);
                assert(self.names() =~= before.names());
                assert(self@ =~= before@.insert(name@, value));
                Some(held.1)
            },
            None => {
                self.entries.push((name, value));
                proof {
                    assert(self.names() =~= before.names().push(name@));
                    assert(self.wf());
                    let grown = before@.insert(name@, value);
                    assert forall|other: Seq<char>| #[trigger]
                        self@.contains_key(other) implies grown.contains_pair(other, self@[other]) by {
                        let k = self.names().index_of(other);
                        if k < before.names().len() {
                            assert(before.names()[k] == other);
                            before.lemma_position(k);
                            self.lemma_position(k);
                        } else {
                            self.lemma_position(k);
                        }
                    }
                    assert forall|other: Seq<char>| #[trigger]
                        before@.contains_key(other) implies self@.contains_key(other) by {
                        let k = before.names().index_of(other);
                        assert(self.names()[k] == other);
                    }
                    assert(self.names()[before.names().len() as int] == name@);
                    assert(self@ =~= grown);
                }
                None
            },
        }
    }

    /// Takes out the entry at a position.
    pub fn remove_at(&mut self, i: usize) -> (value: V)
        requires
            old(self).wf(),
            i < old(self).names().len(),
        ensures
            final(self).wf(),
            old(self)@.contains_pair(old(self).names()[i as int], value),
            final(self).names() == old(self).names().remove(i as int),
            final(self)@ == old(self)@.remove(old(self).names()[i as int]),
    {
        let ghost before = *self;
        proof {
            before.lemma_position(i as int);
        }
        let entry = self.entries.remove(i);
        proof {
            let name = before.names()[i as int];
            assert(self.names() =~= before.names().remove(i as int));
            let shrunk = before@.remove(name);
            assert forall|other: Seq<char>| #[trigger]
                self@.contains_key(other) implies shrunk.contains_pair(other, self@[other]) by {
                let k = self.names().index_of(other);
                self.lemma_position(k);
                let j = if k < i { k } else { k + 1 };
                assert(before.names()[j] == other);
                before.lemma_position(j);
            }
            assert forall|other: Seq<char>| #[trigger]
                shrunk.contains_key(other) implies self@.contains_key(other) by {
                let j = before.names().index_of(other);
                let k = if j < i { j } else { j - 1 };
                assert(self.names()[k] == other);
            }
            assert(self@ =~= shrunk);
        }
        entry.1
    }

    /// Takes out the entry under a name, if there is one.
    pub fn remove(&mut self, name: &str) -> (removed: Option<V>)
        requires
            old(self).wf(),
        ensures
            final(self).wf(),
            final(self)@ == old(self)@.remove(name@),
            match removed {
                Some(value) => old(self)@.contains_pair(name@, value),
                None => !old(self)@.contains_key(name@),
            },
    {
        match self.find(name) {
            Some(i) => Some(self.remove_at(i)),
            None => {
                assert(self@ =~= self@.remove(name@));
                None
            },
        }
    }
}

} // verus!
