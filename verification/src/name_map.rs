//! An insertion-ordered map keyed by names.
use vstd::prelude::*;

verus! {

/// A finite map from names to values. Entries keep the order in which their
/// names were first inserted, and no name occurs twice.
#[derive(Debug)]
pub struct NameMap<V> {
    entries: Vec<(String, V)>,
}

impl<V> View for NameMap<V> {
    type V = Map<Seq<char>, V>;

    /// The map from each name held to the value stored under it.
    open spec fn view(&self) -> Map<Seq<char>, V> {
        Map::new(
            |k: Seq<char>| self.names().contains(k),
            |k: Seq<char>| self.values()[self.names().index_of(k)],
        )
    }
}

impl<V> NameMap<V> {
    /// The entries in insertion order.
    pub closed spec fn pairs(&self) -> Seq<(Seq<char>, V)> {
        Seq::new(self.entries@.len(), |i: int| (self.entries@[i].0@, self.entries@[i].1))
    }

    /// The names in insertion order.
    pub open spec fn names(&self) -> Seq<Seq<char>> {
        Seq::new(self.pairs().len(), |i: int| self.pairs()[i].0)
    }

    /// The values, each at the index of its name in `names`.
    pub open spec fn values(&self) -> Seq<V> {
        Seq::new(self.pairs().len(), |i: int| self.pairs()[i].1)
    }

    /// No name occurs twice.
    #[verifier::type_invariant]
    pub open spec fn wf(&self) -> bool {
        self.names().no_duplicates()
    }

    /// In a well-formed map the value under the `i`-th name is the `i`-th value.
    pub proof fn lemma_view_at(&self, i: int)
        requires
            self.wf(),
            0 <= i < self.names().len(),
        ensures
            self@.contains_key(self.names()[i]),
            self@[self.names()[i]] == self.values()[i],
    {
        let k = self.names()[i];
        assert(self.names().contains(k));
        let j = self.names().index_of(k);
        assert(0 <= j < self.names().len() && self.names()[j] == k);
    }

    /// The empty map.
    pub fn new() -> (r: Self)
        ensures
            r.names() == Seq::<Seq<char>>::empty(),
            r.values() == Seq::<V>::empty(),
            r@ == Map::<Seq<char>, V>::empty(),
    {
        let r = NameMap { entries: Vec::new() };
        assert(r.names() =~= Seq::<Seq<char>>::empty());
        assert(r.values() =~= Seq::<V>::empty());
        assert(r@ =~= Map::<Seq<char>, V>::empty());
        r
    }

    /// The number of entries.
    pub fn len(&self) -> (n: usize)
        ensures
            n == self.names().len(),
            n == self.values().len(),
            self.wf(),
    {
        proof {
            use_type_invariant(self);
        }
        self.entries.len()
    }

    /// The name of the `i`-th entry.
    pub fn name_at(&self, i: usize) -> (r: &String)
        requires
            i < self.names().len(),
        ensures
            r@ == self.names()[i as int],
            self@.contains_key(r@),
    {
        proof {
            use_type_invariant(self);
            self.lemma_view_at(i as int);
        }
        &self.entries[i].0
    }

    /// The value of the `i`-th entry.
    pub fn value_at(&self, i: usize) -> (r: &V)
        requires
            i < self.names().len(),
        ensures
            *r == self.values()[i as int],
            *r == self@[self.names()[i as int]],
    {
        proof {
            use_type_invariant(self);
            self.lemma_view_at(i as int);
        }
        &self.entries[i].1
    }

    /// Where `name` stands among the names, if it is held.
    fn position(entries: &Vec<(String, V)>, name: &String) -> (r: Option<usize>)
        ensures
            match r {
                Some(i) => i < entries@.len() && entries@[i as int].0@ == name@,
                None => forall|j: int| 0 <= j < entries@.len() ==> entries@[j].0@ != name@,
            },
    {
        let mut i: usize = 0;
        while i < entries.len()
            invariant
                i <= entries@.len(),
                forall|j: int| 0 <= j < i ==> entries@[j].0@ != name@,
            decreases entries@.len() - i,
        {
            if entries[i].0 == *name {
                return Some(i);
            }
            i += 1;
        }
        None
    }

    /// The value stored under `name`, if any.
    pub fn get(&self, name: &String) -> (r: Option<&V>)
        ensures
            match r {
                Some(v) => self@.contains_key(name@) && *v == self@[name@],
                None => !self@.contains_key(name@),
            },
    {
        proof {
            use_type_invariant(self);
        }
        match Self::position(&self.entries, name) {
            Some(i) => {
                proof {
                    assert(self.names()[i as int] == name@);
                    self.lemma_view_at(i as int);
                }
                Some(&self.entries[i].1)
            },
            None => {
                assert(!self.names().contains(name@));
                None
            },
        }
    }

    /// Stores `value` under `name`. A name already held keeps its place and
    /// takes the new value; a new name goes to the end.
    pub fn insert(&mut self, name: String, value: V)
        ensures
            final(self)@ == old(self)@.insert(name@, value),
            old(self).names().contains(name@) ==> {
                &&& final(self).names() == old(self).names()
                &&& final(self).values() == old(self).values().update(
                    old(self).names().index_of(name@),
                    value,
                )
            },
            !old(self).names().contains(name@) ==> {
                &&& final(self).names() == old(self).names().push(name@)
                &&& final(self).values() == old(self).values().push(value)
            },
    {
        proof {
            use_type_invariant(&*self);
        }
        let ghost before = *self;
        let mut entries: Vec<(String, V)> = Vec::new();
        std::mem::swap(&mut entries, &mut self.entries);
        let ghost key = name@;
        match Self::position(&entries, &name) {
            Some(i) => {
                entries.set(i, (name, value));
                proof {
                    assert(before.names()[i as int] == key);
                    assert forall|a: int, b: int|
                        0 <= a < entries@.len() && 0 <= b < entries@.len() && a != b implies entries@[a].0@
                        != entries@[b].0@ by {
                        assert(before.names()[a] != before.names()[b]);
                    }
                }
                self.entries = entries;
                proof {
                    assert(self.names() =~= before.names());
                    assert(before.names().index_of(key) == i);
                    assert(self.values() =~= before.values().update(i as int, value));
                    assert(self@ =~= before@.insert(key, value)) by {
                        assert forall|k: Seq<char>| self.names().contains(k) implies #[trigger] self@[k]
                            == before@.insert(key, value)[k] by {
                            let j = self.names().index_of(k);
                            assert(0 <= j < self.names().len() && self.names()[j] == k);
                        }
                    }
                }
            },
            None => {
                entries.push((name, value));
                proof {
                    assert forall|a: int, b: int|
                        0 <= a < entries@.len() && 0 <= b < entries@.len() && a != b implies entries@[a].0@
                        != entries@[b].0@ by {
                        if a < before.names().len() && b < before.names().len() {
                            assert(before.names()[a] != before.names()[b]);
                        }
                    }
                }
                self.entries = entries;
                proof {
                    assert(!before.names().contains(key));
                    assert(self.names() =~= before.names().push(key));
                    assert(self.values() =~= before.values().push(value));
                    assert(self@ =~= before@.insert(key, value)) by {
                        assert forall|k: Seq<char>| #[trigger]
                            self.names().contains(k) <==> (before.names().contains(k) || k
                                == key) by {
                            if before.names().contains(k) {
                                let j = before.names().index_of(k);
                                assert(self.names()[j] == k);
                            }
                            if k == key {
                                assert(self.names()[before.names().len() as int] == k);
                            }
                        }
                        assert forall|k: Seq<char>| self.names().contains(k) implies #[trigger] self@[k]
                            == before@.insert(key, value)[k] by {
                            let j = self.names().index_of(k);
                            assert(0 <= j < self.names().len() && self.names()[j] == k);
                            if k != key {
                                let j0 = before.names().index_of(k);
                                assert(0 <= j0 < before.names().len() && before.names()[j0] == k);
                                assert(self.names()[j0] == k);
                            }
                        }
                    }
                }
            },
        }
    }
}

impl<V: Clone> Clone for NameMap<V> {
    /// A map with the same names in the same order, each value cloned.
    fn clone(&self) -> (r: Self)
        ensures
            r.names() == self.names(),
            r.values().len() == self.values().len(),
            forall|i: int|
                0 <= i < self.values().len() ==> cloned::<V>(
                    #[trigger] self.values()[i],
                    r.values()[i],
                ),
    {
        proof {
            use_type_invariant(self);
        }
        let mut entries: Vec<(String, V)> = Vec::new();
        let mut i: usize = 0;
        while i < self.entries.len()
            invariant
                i <= self.entries@.len(),
                entries@.len() == i,
                forall|j: int|
                    0 <= j < i ==> entries@[j].0@ == self.entries@[j].0@ && cloned::<V>(
                        self.entries@[j].1,
                        entries@[j].1,
                    ),
            decreases self.entries@.len() - i,
        {
            entries.push((self.entries[i].0.clone(), self.entries[i].1.clone()));
            i += 1;
        }
        proof {
            assert forall|a: int, b: int|
                0 <= a < entries@.len() && 0 <= b < entries@.len() && a != b implies entries@[a].0@
                != entries@[b].0@ by {
                assert(self.names()[a] != self.names()[b]);
            }
        }
        let r = NameMap { entries };
        assert(r.names() =~= self.names());
        r
    }
}

} // verus!
