//! A small map keyed by names, kept in insertion order.

use vstd::prelude::*;

verus! {

/// A map from names to values that remembers the order in which names were first inserted.
pub struct NameMap<V> {
    entries: Vec<(String, V)>,
}

impl<V> NameMap<V> {
    /// The names held, in insertion order.
    pub closed spec fn order(&self) -> Seq<Seq<char>> {
        Seq::new(self.entries@.len(), |i: int| self.entries@[i].0@)
    }

    /// No name occurs twice.
    pub closed spec fn wf(&self) -> bool {
        self.order().no_duplicates()
    }

    /// The map from each name held to its value.
    pub closed spec fn view(&self) -> Map<Seq<char>, V> {
        Map::new(
            |k: Seq<char>| self.order().contains(k),
            |k: Seq<char>| self.entries@[self.order().index_of(k)].1,
        )
    }

    /// The names of `order` are exactly the keys of the view.
    pub proof fn lemma_order(&self)
        requires
            self.wf(),
        ensures
            self.order().no_duplicates(),
            forall|k: Seq<char>| self.order().contains(k) <==> #[trigger] self@.contains_key(k),
    {
    }

    proof fn lemma_entry(&self, i: int)
        requires
            self.wf(),
            0 <= i < self.entries@.len(),
        ensures
            self.order()[i] == self.entries@[i].0@,
            self@.contains_key(self.entries@[i].0@),
            self@[self.entries@[i].0@] == self.entries@[i].1,
            self.order().index_of(self.entries@[i].0@) == i,
    {
        let k = self.entries@[i].0@;
        assert(self.order()[i] == k);
        assert(self.order().contains(k));
        let j = self.order().index_of(k);
        assert(0 <= j < self.order().len() && self.order()[j] == k);
    }

    pub fn new() -> (m: Self)
        ensures
            m.wf(),
            m@ == Map::<Seq<char>, V>::empty(),
            m.order() == Seq::<Seq<char>>::empty(),
    {
        let m = NameMap { entries: Vec::new() };
        assert(m.order() =~= Seq::<Seq<char>>::empty());
        assert(m@ =~= Map::<Seq<char>, V>::empty());
        m
    }

    pub fn len(&self) -> (n: usize)
        ensures
            n == self.order().len(),
    {
        self.entries.len()
    }

    /// The index at which `name` is held, if it is held.
    pub fn position(&self, name: &String) -> (r: Option<usize>)
        requires
            self.wf(),
        ensures
            match r {
                Some(i) => i < self.order().len() && self.order()[i as int] == name@,
                None => !self@.contains_key(name@),
            },
    {
        let mut i: usize = 0;
        while i < self.entries.len()
            invariant
                i <= self.entries@.len(),
                forall|j: int| 0 <= j < i ==> self.order()[j] != name@,
            decreases self.entries@.len() - i,
        {
            if self.entries[i].0 == *name {
                return Some(i);
            }
            i += 1;
        }
        None
    }

    pub fn contains_key(&self, name: &String) -> (b: bool)
        requires
            self.wf(),
        ensures
            b == self@.contains_key(name@),
    {
        self.position(name).is_some()
    }

    pub fn get(&self, name: &String) -> (r: Option<&V>)
        requires
            self.wf(),
        ensures
            match r {
                Some(v) => self@.contains_key(name@) && *v == self@[name@],
                None => !self@.contains_key(name@),
            },
    {
        match self.position(name) {
            Some(i) => {
                proof {
                    self.lemma_entry(i as int);
                }
                Some(&self.entries[i].1)
            },
            None => None,
        }
    }

    pub fn name_at(&self, i: usize) -> (name: &String)
        requires
            self.wf(),
            i < self.order().len(),
        ensures
            name@ == self.order()[i as int],
            self@.contains_key(name@),
    {
        proof {
            self.lemma_entry(i as int);
        }
        &self.entries[i].0
    }

    pub fn value_at(&self, i: usize) -> (value: &V)
        requires
            self.wf(),
            i < self.order().len(),
        ensures
            self@.contains_key(self.order()[i as int]),
            *value == self@[self.order()[i as int]],
    {
        proof {
            self.lemma_entry(i as int);
        }
        &self.entries[i].1
    }
    /// Binds `name` to `value`; a name already held keeps its place in the order.
    pub fn insert(&mut self, name: String, value: V) -> (previous: Option<V>)
        requires
            old(self).wf(),
        ensures
            final(self).wf(),
            final(self)@ == old(self)@.insert(name@, value),
            previous == if old(self)@.contains_key(name@) {
                Some(old(self)@[name@])
            } else {
                None::<V>
            },
            final(self).order() == if old(self)@.contains_key(name@) {
                old(self).order()
            } else {
                old(self).order().push(name@)
            },
    {
        let ghost before = *self;
        match self.position(&name) {
            Some(i) => {
                proof {
                    before.lemma_entry(i as int);
                }
                let (kept, previous) = self.entries.remove(i);
                self.entries.insert(i, (kept, value));
                proof {
                    assert(self.order() =~= before.order());
                    assert forall|k: Seq<char>| #[trigger] self@.contains_key(k) implies self@[k]
                        == before@.insert(name@, value)[k] by {
                        let j = self.order().index_of(k);
                        assert(0 <= j < self.order().len() && self.order()[j] == k);
                        if k == name@ {
                            assert(j == i);
                        }
                    }
                    assert(self@ =~= before@.insert(name@, value));
                }
                Some(previous)
            },
            None => {
                self.entries.push((name, value));
                proof {
                    assert(self.order() =~= before.order().push(name@));
                    assert forall|k: Seq<char>| #[trigger] self@.contains_key(k) implies self@[k]
                        == before@.insert(name@, value)[k] by {
                        let j = self.order().index_of(k);
                        assert(0 <= j < self.order().len() && self.order()[j] == k);
                        if k != name@ {
                            assert(j < before.order().len());
                            assert(before.order()[j] == k);
                            before.lemma_entry(j);
                        }
                    }
                    assert forall|k: Seq<char>| before@.contains_key(k) implies self@.contains_key(
                        k,
                    ) by {
                        let j = before.order().index_of(k);
                        assert(self.order()[j] == k);
                    }
                    assert(self@.contains_key(name@)) by {
                        assert(self.order()[before.order().len() as int] == name@);
                    }
                    assert(self@ =~= before@.insert(name@, value));
                }
                None
            },
        }
    }

    /// Takes out the entry at index `i`; the entries after it move up by one.
    pub fn remove_at(&mut self, i: usize) -> (entry: (String, V))
        requires
            old(self).wf(),
            i < old(self).order().len(),
        ensures
            final(self).wf(),
            entry.0@ == old(self).order()[i as int],
            entry.1 == old(self)@[old(self).order()[i as int]],
            final(self)@ == old(self)@.remove(entry.0@),
            final(self).order() == old(self).order().remove(i as int),
    {
        let ghost before = *self;
        proof {
            before.lemma_entry(i as int);
        }
        let entry = self.entries.remove(i);
        proof {
            assert(self.order() =~= before.order().remove(i as int));
            assert forall|k: Seq<char>| #[trigger] self@.contains_key(k) implies before@.remove(
                entry.0@,
            ).contains_key(k) && self@[k] == before@[k] by {
                let j = self.order().index_of(k);
                assert(0 <= j < self.order().len() && self.order()[j] == k);
                let b = if j < i { j } else { j + 1 };
                assert(before.order()[b] == k);
                before.lemma_entry(b);
            }
            assert forall|k: Seq<char>| before@.remove(entry.0@).contains_key(k) implies
                #[trigger] self@.contains_key(k) by {
                let b = before.order().index_of(k);
                assert(0 <= b < before.order().len() && before.order()[b] == k);
                let j = if b < i { b } else { b - 1 };
                assert(self.order()[j] == k);
            }
            assert(self@ =~= before@.remove(entry.0@));
        }
        entry
    }

    /// Takes out the entry of `name`, if it is held.
    pub fn remove(&mut self, name: &String) -> (previous: Option<V>)
        requires
            old(self).wf(),
        ensures
            final(self).wf(),
            final(self)@ == old(self)@.remove(name@),
            previous == if old(self)@.contains_key(name@) {
                Some(old(self)@[name@])
            } else {
                None::<V>
            },
    {
        match self.position(name) {
            Some(i) => {
                let entry = self.remove_at(i);
                Some(entry.1)
            },
            None => {
                assert(self@ =~= self@.remove(name@));
                None
            },
        }
    }
}

} // verus!
