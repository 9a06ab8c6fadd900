//! The module tree: values indexed by absolute module path.
use vstd::prelude::*;
use crate::name_map::NameMap;

verus! {

/// Whether `key` spells the first `n` segments of `path`.
pub fn path_is_prefix(key: &Vec<String>, path: &Vec<String>, n: usize) -> (r: bool)
    requires
        n <= path@.len(),
    ensures
        r == (key.deep_view() == path.deep_view().take(n as int)),
{
    if key.len() != n {
        return false;
    }
    let mut i: usize = 0;
    while i < n
        invariant
            i <= n,
            n == key@.len(),
            n <= path@.len(),
            forall|j: int| 0 <= j < i ==> key@[j]@ == path@[j]@,
        decreases n - i,
    {
        if key[i] != path[i] {
            assert(key.deep_view()[i as int] != path.deep_view().take(n as int)[i as int]);
            return false;
        }
        i += 1;
    }
    assert(key.deep_view() =~= path.deep_view().take(n as int));
    true
}

/// A copy of `path`, segment by segment.
pub fn clone_path(path: &Vec<String>) -> (r: Vec<String>)
    ensures
        r.deep_view() == path.deep_view(),
{
    let mut out: Vec<String> = Vec::new();
    let mut i: usize = 0;
    while i < path.len()
        invariant
            i <= path@.len(),
            out@.len() == i,
            forall|j: int| 0 <= j < i ==> out@[j]@ == path@[j]@,
        decreases path@.len() - i,
    {
        out.push(path[i].clone());
        i += 1;
    }
    assert(out.deep_view() =~= path.deep_view());
    out
}

/// The path of `name` inside the module at `module`.
pub fn child_path(module: &Vec<String>, name: &String) -> (r: Vec<String>)
    ensures
        r.deep_view() == module.deep_view().push(name@),
{
    let mut out = clone_path(module);
    let ghost before = out.deep_view();
    out.push(name.clone());
    assert(out.deep_view() =~= before.push(name@));
    out
}

/// A tree of modules, flattened: each module's value stands under the
/// module's absolute path. Modules keep the order in which they were inserted,
/// and no path occurs twice.
#[derive(Debug)]
pub struct Tree<T> {
    nodes: Vec<(Vec<String>, T)>,
}

impl<T> View for Tree<T> {
    type V = Map<Seq<Seq<char>>, T>;

    /// The map from each module path to the value stored under it.
    open spec fn view(&self) -> Map<Seq<Seq<char>>, T> {
        Map::new(
            |p: Seq<Seq<char>>| self.paths().contains(p),
            |p: Seq<Seq<char>>| self.values()[self.paths().index_of(p)],
        )
    }
}

impl<T> Tree<T> {
    /// The modules in insertion order.
    pub closed spec fn pairs(&self) -> Seq<(Seq<Seq<char>>, T)> {
        Seq::new(self.nodes@.len(), |i: int| (self.nodes@[i].0.deep_view(), self.nodes@[i].1))
    }

    /// The module paths in insertion order.
    pub open spec fn paths(&self) -> Seq<Seq<Seq<char>>> {
        Seq::new(self.pairs().len(), |i: int| self.pairs()[i].0)
    }

    /// The values, each at the index of its path in `paths`.
    pub open spec fn values(&self) -> Seq<T> {
        Seq::new(self.pairs().len(), |i: int| self.pairs()[i].1)
    }

    /// No path occurs twice.
    #[verifier::type_invariant]
    pub open spec fn wf(&self) -> bool {
        self.paths().no_duplicates()
    }

    /// In a well-formed tree the value under the `i`-th path is the `i`-th value.
    pub proof fn lemma_view_at(&self, i: int)
        requires
            self.wf(),
            0 <= i < self.paths().len(),
        ensures
            self@.contains_key(self.paths()[i]),
            self@[self.paths()[i]] == self.values()[i],
    {
        let p = self.paths()[i];
        assert(self.paths().contains(p));
        let j = self.paths().index_of(p);
        assert(0 <= j < self.paths().len() && self.paths()[j] == p);
    }

    /// The tree without modules.
    pub fn new() -> (r: Self)
        ensures
            r.paths() == Seq::<Seq<Seq<char>>>::empty(),
            r.values() == Seq::<T>::empty(),
            r@ == Map::<Seq<Seq<char>>, T>::empty(),
    {
        let r = Tree { nodes: Vec::new() };
        assert(r.paths() =~= Seq::<Seq<Seq<char>>>::empty());
        assert(r.values() =~= Seq::<T>::empty());
        assert(r@ =~= Map::<Seq<Seq<char>>, T>::empty());
        r
    }

    /// The number of modules.
    pub fn len(&self) -> (n: usize)
        ensures
            n == self.paths().len(),
            n == self.values().len(),
            self.wf(),
    {
        proof {
            use_type_invariant(self);
        }
        self.nodes.len()
    }

    /// The path of the `i`-th module.
    pub fn path_at(&self, i: usize) -> (r: &Vec<String>)
        requires
            i < self.paths().len(),
        ensures
            r.deep_view() == self.paths()[i as int],
            self@.contains_key(r.deep_view()),
    {
        proof {
            use_type_invariant(self);
            self.lemma_view_at(i as int);
        }
        &self.nodes[i].0
    }

    /// The value of the `i`-th module.
    pub fn value_at(&self, i: usize) -> (r: &T)
        requires
            i < self.paths().len(),
        ensures
            *r == self.values()[i as int],
            *r == self@[self.paths()[i as int]],
    {
        proof {
            use_type_invariant(self);
            self.lemma_view_at(i as int);
        }
        &self.nodes[i].1
    }

    /// Where the first `n` segments of `path` stand among the paths, if held.
    fn position(nodes: &Vec<(Vec<String>, T)>, path: &Vec<String>, n: usize) -> (r: Option<usize>)
        requires
            n <= path@.len(),
        ensures
            match r {
                Some(i) => i < nodes@.len() && nodes@[i as int].0.deep_view()
                    == path.deep_view().take(n as int),
                None => forall|j: int|
                    0 <= j < nodes@.len() ==> nodes@[j].0.deep_view() != path.deep_view().take(
                        n as int,
                    ),
            },
    {
        let mut i: usize = 0;
        while i < nodes.len()
            invariant
                i <= nodes@.len(),
                n <= path@.len(),
                forall|j: int|
                    0 <= j < i ==> nodes@[j].0.deep_view() != path.deep_view().take(n as int),
            decreases nodes@.len() - i,
        {
            if path_is_prefix(&nodes[i].0, path, n) {
                return Some(i);
            }
            i += 1;
        }
        None
    }

    /// The value of the module whose path is the first `n` segments of `path`.
    pub fn get_prefix(&self, path: &Vec<String>, n: usize) -> (r: Option<&T>)
        requires
            n <= path@.len(),
        ensures
            match r {
                Some(v) => self@.contains_key(path.deep_view().take(n as int)) && *v
                    == self@[path.deep_view().take(n as int)],
                None => !self@.contains_key(path.deep_view().take(n as int)),
            },
    {
        proof {
            use_type_invariant(self);
        }
        match Self::position(&self.nodes, path, n) {
            Some(i) => {
                proof {
                    assert(self.paths()[i as int] == path.deep_view().take(n as int));
                    self.lemma_view_at(i as int);
                }
                Some(&self.nodes[i].1)
            },
            None => {
                assert(!self.paths().contains(path.deep_view().take(n as int)));
                None
            },
        }
    }

    /// The value of the module at exactly `path`.
    pub fn get(&self, path: &Vec<String>) -> (r: Option<&T>)
        ensures
            match r {
                Some(v) => self@.contains_key(path.deep_view()) && *v == self@[path.deep_view()],
                None => !self@.contains_key(path.deep_view()),
            },
    {
        assert(path.deep_view().take(path@.len() as int) =~= path.deep_view());
        self.get_prefix(path, path.len())
    }

    /// Stores `value` under `path`. A path already held keeps its place and
    /// takes the new value; a new path goes to the end.
    pub fn insert(&mut self, path: Vec<String>, value: T)
        ensures
            final(self)@ == old(self)@.insert(path.deep_view(), value),
            old(self).paths().contains(path.deep_view()) ==> {
                &&& final(self).paths() == old(self).paths()
                &&& final(self).values() == old(self).values().update(
                    old(self).paths().index_of(path.deep_view()),
                    value,
                )
            },
            !old(self).paths().contains(path.deep_view()) ==> {
                &&& final(self).paths() == old(self).paths().push(path.deep_view())
                &&& final(self).values() == old(self).values().push(value)
            },
    {
        proof {
            use_type_invariant(&*self);
        }
        let ghost before = *self;
        let mut nodes: Vec<(Vec<String>, T)> = Vec::new();
        std::mem::swap(&mut nodes, &mut self.nodes);
        let ghost key = path.deep_view();
        assert(key.take(path@.len() as int) =~= key);
        match Self::position(&nodes, &path, path.len()) {
            Some(i) => {
                nodes.set(i, (path, value));
                proof {
                    assert(before.paths()[i as int] == key);
                    assert forall|a: int, b: int|
                        0 <= a < nodes@.len() && 0 <= b < nodes@.len() && a != b implies nodes@[a].0.deep_view()
                        != nodes@[b].0.deep_view() by {
                        assert(before.paths()[a] != before.paths()[b]);
                    }
                }
                self.nodes = nodes;
                proof {
                    assert(self.paths() =~= before.paths());
                    assert(before.paths().index_of(key) == i);
                    assert(self.values() =~= before.values().update(i as int, value));
                    assert(self@ =~= before@.insert(key, value)) by {
                        assert forall|k: Seq<Seq<char>>| self.paths().contains(k) implies #[trigger] self@[k]
                            == before@.insert(key, value)[k] by {
                            let j = self.paths().index_of(k);
                            assert(0 <= j < self.paths().len() && self.paths()[j] == k);
                        }
                    }
                }
            },
            None => {
                nodes.push((path, value));
                proof {
                    assert forall|a: int, b: int|
                        0 <= a < nodes@.len() && 0 <= b < nodes@.len() && a != b implies nodes@[a].0.deep_view()
                        != nodes@[b].0.deep_view() by {
                        if a < before.paths().len() && b < before.paths().len() {
                            assert(before.paths()[a] != before.paths()[b]);
                        }
                    }
                }
                self.nodes = nodes;
                proof {
                    assert(!before.paths().contains(key));
                    assert(self.paths() =~= before.paths().push(key));
                    assert(self.values() =~= before.values().push(value));
                    assert(self@ =~= before@.insert(key, value)) by {
                        assert forall|k: Seq<Seq<char>>| #[trigger]
                            self.paths().contains(k) <==> (before.paths().contains(k) || k
                                == key) by {
                            if before.paths().contains(k) {
                                let j = before.paths().index_of(k);
                                assert(self.paths()[j] == k);
                            }
                            if k == key {
                                assert(self.paths()[before.paths().len() as int] == k);
                            }
                        }
                        assert forall|k: Seq<Seq<char>>| self.paths().contains(k) implies #[trigger] self@[k]
                            == before@.insert(key, value)[k] by {
                            let j = self.paths().index_of(k);
                            assert(0 <= j < self.paths().len() && self.paths()[j] == k);
                            if k != key {
                                let j0 = before.paths().index_of(k);
                                assert(0 <= j0 < before.paths().len() && before.paths()[j0] == k);
                                assert(self.paths()[j0] == k);
                            }
                        }
                    }
                }
            },
        }
    }
}

impl<T: Clone> Clone for Tree<T> {
    /// A tree with the same paths in the same order, each value cloned.
    fn clone(&self) -> (r: Self)
        ensures
            r.paths() == self.paths(),
            r.values().len() == self.values().len(),
            forall|i: int|
                0 <= i < self.values().len() ==> cloned::<T>(
                    #[trigger] self.values()[i],
                    r.values()[i],
                ),
    {
        proof {
            use_type_invariant(self);
        }
        let mut nodes: Vec<(Vec<String>, T)> = Vec::new();
        let mut i: usize = 0;
        while i < self.nodes.len()
            invariant
                i <= self.nodes@.len(),
                nodes@.len() == i,
                forall|j: int|
                    0 <= j < i ==> nodes@[j].0.deep_view() == self.nodes@[j].0.deep_view()
                        && cloned::<T>(self.nodes@[j].1, nodes@[j].1),
            decreases self.nodes@.len() - i,
        {
            nodes.push((clone_path(&self.nodes[i].0), self.nodes[i].1.clone()));
            i += 1;
        }
        proof {
            assert forall|a: int, b: int|
                0 <= a < nodes@.len() && 0 <= b < nodes@.len() && a != b implies nodes@[a].0.deep_view()
                != nodes@[b].0.deep_view() by {
                assert(self.paths()[a] != self.paths()[b]);
            }
        }
        let r = Tree { nodes };
        assert(r.paths() =~= self.paths());
        r
    }
}

impl<U> Tree<NameMap<U>> {
    /// Whether `path` names an entry of one of the tree's modules: its last
    /// segment a name held by the module at the segments before it.
    pub open spec fn has_leaf(&self, path: Seq<Seq<char>>) -> bool {
        &&& path.len() > 0
        &&& self@.contains_key(path.drop_last())
        &&& self@[path.drop_last()]@.contains_key(path.last())
    }

    /// The entry that `path` names.
    pub open spec fn leaf(&self, path: Seq<Seq<char>>) -> U {
        self@[path.drop_last()]@[path.last()]
    }

    /// The entry that `path` names, if there is one.
    pub fn get_leaf_ext(&self, path: &Vec<String>) -> (r: Option<&U>)
        ensures
            match r {
                Some(v) => self.has_leaf(path.deep_view()) && *v == self.leaf(path.deep_view()),
                None => !self.has_leaf(path.deep_view()),
            },
    {
        if path.len() == 0 {
            return None;
        }
        let n: usize = path.len() - 1;
        assert(path.deep_view().take(n as int) =~= path.deep_view().drop_last());
        match self.get_prefix(path, n) {
            Some(module) => module.get(&path[n]),
            None => None,
        }
    }
}

} // verus!
