//! A finite map from names to handles, kept as a list of entries in which
//! no name occurs twice.

use vstd::prelude::*;
use crate::ir::{Name, NameKey};

verus! {

/// A map from names to handles.
pub struct NameMap {
    entries: Vec<(Name, usize)>,
}

impl NameMap {
    /// No name occurs in two entries.
    pub closed spec fn wf(&self) -> bool {
        forall|i: int, j: int|
            0 <= i < self.entries@.len() && 0 <= j < self.entries@.len() && i != j
                ==> #[trigger] self.entries@[i].0.key() != #[trigger] self.entries@[j].0.key()
    }

    pub closed spec fn has(&self, k: NameKey) -> bool {
        exists|i: int| 0 <= i < self.entries@.len() && #[trigger] self.entries@[i].0.key() == k
    }

    pub closed spec fn view(&self) -> Map<NameKey, usize> {
        Map::new(
            |k: NameKey| self.has(k),
            |k: NameKey|
                self.entries@[choose|i: int|
                    0 <= i < self.entries@.len() && #[trigger] self.entries@[i].0.key() == k].1,
        )
    }

    /// The empty map.
    pub fn new() -> (r: NameMap)
        ensures
            r.wf(),
            r.view() == Map::<NameKey, usize>::empty(),
    {
        let r = NameMap { entries: Vec::new() };
        assert(r.view() =~= Map::<NameKey, usize>::empty());
        r
    }

    /// A copy of this map.
    pub fn copy(&self) -> (r: NameMap)
        requires
            self.wf(),
        ensures
            r.wf(),
            r.view() == self.view(),
    {
        let mut entries: Vec<(Name, usize)> = Vec::new();
        let mut i: usize = 0;
        while i < self.entries.len()
            invariant
                i <= self.entries@.len(),
                entries@ == self.entries@.subrange(0, i as int),
            decreases self.entries@.len() - i,
        {
            let e = (self.entries[i].0.clone_name(), self.entries[i].1);
            entries.push(e);
            assert(entries@ =~= self.entries@.subrange(0, i + 1));
            i = i + 1;
        }
        assert(entries@ =~= self.entries@);
        NameMap { entries }
    }

    /// The position of the entry for a name, if there is one.
    fn find(&self, name: &Name) -> (r: Option<usize>)
        requires
            self.wf(),
        ensures
            match r {
                Some(i) => i < self.entries@.len() && self.entries@[i as int].0.key() == name.key(),
                None => !self.has(name.key()),
            },
    {
        let mut i: usize = 0;
        while i < self.entries.len()
            invariant
                i <= self.entries@.len(),
                forall|j: int| 0 <= j < i ==> #[trigger] self.entries@[j].0.key() != name.key(),
            decreases self.entries@.len() - i,
        {
            if self.entries[i].0.same_as(name) {
                return Some(i);
            }
            i = i + 1;
        }
        None
    }

    /// The handle for a name, if the map has one.
    pub fn get(&self, name: &Name) -> (r: Option<usize>)
        requires
            self.wf(),
        ensures
            r == (if self.view().contains_key(name.key()) {
                Some(self.view()[name.key()])
            } else {
                None
            }),
    {
        match self.find(name) {
            Some(i) => {
                let ghost k = name.key();
                assert(self.has(k));
                let ghost c = choose|j: int|
                    0 <= j < self.entries@.len() && #[trigger] self.entries@[j].0.key() == k;
                assert(c == i);
                Some(self.entries[i].1)
            },
            None => None,
        }
    }

    /// Sets the handle for a name, replacing the one it had.
    pub fn insert(&mut self, name: Name, value: usize)
        requires
            old(self).wf(),
        ensures
            final(self).wf(),
            final(self).view() == old(self).view().insert(name.key(), value),
    {
        let ghost k = name.key();
        let ghost old_entries = self.entries@;
        match self.find(&name) {
            Some(i) => {
                self.entries.set(i, (name, value));
                assert forall|k2: NameKey| #[trigger] self.has(k2) == old(self).has(k2) by {
                    if old(self).has(k2) {
                        let j = choose|j: int| 0 <= j < old_entries.len() && #[trigger] old_entries[j].0.key() == k2;
                        assert(self.entries@[j].0.key() == k2);
                    }
                    if self.has(k2) {
                        let j = choose|j: int| 0 <= j < self.entries@.len() && #[trigger] self.entries@[j].0.key() == k2;
                        assert(old_entries[j].0.key() == k2);
                    }
                }
                assert(self.view() =~= old(self).view().insert(k, value)) by {
                    assert forall|k2: NameKey| #[trigger] self.view().contains_key(k2) implies
                        self.view()[k2] == old(self).view().insert(k, value)[k2] by {
                        let j = choose|j: int| 0 <= j < self.entries@.len() && #[trigger] self.entries@[j].0.key() == k2;
                        if k2 == k {
                            assert(j == i);
                        } else {
                            let j0 = choose|j: int| 0 <= j < old_entries.len() && #[trigger] old_entries[j].0.key() == k2;
                            assert(old_entries[j].0.key() == k2);
                            assert(j0 == j);
                        }
                    }
                }
            },
            None => {
                self.entries.push((name, value));
                let ghost n = old_entries.len() as int;
                assert(self.entries@[n].0.key() == k);
                assert forall|k2: NameKey| #[trigger] self.has(k2) == (old(self).has(k2) || k2 == k) by {
                    if old(self).has(k2) {
                        let j = choose|j: int| 0 <= j < old_entries.len() && #[trigger] old_entries[j].0.key() == k2;
                        assert(self.entries@[j].0.key() == k2);
                    }
                    if self.has(k2) && k2 != k {
                        let j = choose|j: int| 0 <= j < self.entries@.len() && #[trigger] self.entries@[j].0.key() == k2;
                        assert(old_entries[j].0.key() == k2);
                    }
                }
                assert(self.view() =~= old(self).view().insert(k, value)) by {
                    assert forall|k2: NameKey| #[trigger] self.view().contains_key(k2) implies
                        self.view()[k2] == old(self).view().insert(k, value)[k2] by {
                        let j = choose|j: int| 0 <= j < self.entries@.len() && #[trigger] self.entries@[j].0.key() == k2;
                        if k2 == k {
                            assert(j == n);
                        } else {
                            let j0 = choose|j: int| 0 <= j < old_entries.len() && #[trigger] old_entries[j].0.key() == k2;
                            assert(self.entries@[j0].0.key() == k2);
                            assert(j0 == j);
                        }
                    }
                }
            },
        }
    }
}

} // verus!
