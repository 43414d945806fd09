//! Component containers: one value per entity index, behind a common
//! interface with a dense and a hashed implementation.
use vstd::prelude::*;
use std::collections::HashMap;

verus! {

/// Common interface of the component containers. `contents` is the
/// mathematical map from entity index to component value.
pub trait ComponentStorage<T: Copy>: Sized {
    spec fn contents(&self) -> Map<usize, T>;

    fn empty() -> (s: Self)
        ensures
            s.contents() == Map::<usize, T>::empty(),
    ;

    fn get(&self, id: usize) -> (r: Option<T>)
        ensures
            r == (if self.contents().contains_key(id) {
                Some(self.contents()[id])
            } else {
                None
            }),
    ;

    fn contains(&self, id: usize) -> (r: bool)
        ensures
            r == self.contents().contains_key(id),
    ;

    fn insert(&mut self, id: usize, v: T)
        ensures
            final(self).contents() == old(self).contents().insert(id, v),
    ;

    fn remove(&mut self, id: usize) -> (r: Option<T>)
        ensures
            final(self).contents() == old(self).contents().remove(id),
            r == (if old(self).contents().contains_key(id) {
                Some(old(self).contents()[id])
            } else {
                None
            }),
    ;
}

/// Array-indexed container, for components that most entities have.
pub struct DenseStorage<T> {
    data: Vec<Option<T>>,
}

impl<T: Copy> ComponentStorage<T> for DenseStorage<T> {
    closed spec fn contents(&self) -> Map<usize, T> {
        Map::new(
            |k: usize| k < self.data@.len() && self.data@[k as int] is Some,
            |k: usize| self.data@[k as int]->Some_0,
        )
    }

    fn empty() -> (s: Self) {
        let s = DenseStorage { data: Vec::new() };
        assert(s.contents() =~= Map::<usize, T>::empty());
        s
    }

    fn get(&self, id: usize) -> (r: Option<T>) {
        if id < self.data.len() {
            self.data[id]
        } else {
            None
        }
    }

    fn contains(&self, id: usize) -> (r: bool) {
        id < self.data.len() && self.data[id].is_some()
    }

    fn insert(&mut self, id: usize, v: T) {
        let ghost before = self.contents();
        while self.data.len() <= id
            invariant
                self.contents() == before,
            decreases id + 1 - self.data.len(),
        {
            let ghost prev = self.data@;
            self.data.push(None);
            assert(self.contents() =~= before) by {
                assert forall|k: usize| k < prev.len() implies self.data@[k as int] == prev[k as int] by {}
            }
        }
        self.data.set(id, Some(v));
        assert(self.contents() =~= before.insert(id, v));
    }

    fn remove(&mut self, id: usize) -> (r: Option<T>) {
        if id < self.data.len() {
            let r = self.data[id];
            self.data.set(id, None);
            assert(self.contents() =~= old(self).contents().remove(id));
            r
        } else {
            assert(self.contents() =~= old(self).contents().remove(id));
            None
        }
    }
}

/// Hashed container, for components that few entities have.
pub struct SparseStorage<T> {
    data: HashMap<usize, T>,
}

impl<T: Copy> ComponentStorage<T> for SparseStorage<T> {
    closed spec fn contents(&self) -> Map<usize, T> {
        self.data@
    }

    fn empty() -> (s: Self) {
        SparseStorage { data: HashMap::new() }
    }

    fn get(&self, id: usize) -> (r: Option<T>) {
        match self.data.get(&id) {
            Some(v) => Some(*v),
            None => None,
        }
    }

    fn contains(&self, id: usize) -> (r: bool) {
        self.data.contains_key(&id)
    }

    fn insert(&mut self, id: usize, v: T) {
        self.data.insert(id, v);
    }

    fn remove(&mut self, id: usize) -> (r: Option<T>) {
        self.data.remove(&id)
    }
}

} // verus!
