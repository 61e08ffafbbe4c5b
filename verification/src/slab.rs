//! Storage that hands out small numbers.
use vstd::prelude::*;

verus! {

/// Values stored under the numbers that their insertion returned.
pub struct Slab<T> {
    entries: Vec<Option<T>>,
    free: Vec<usize>,
}

impl<T> View for Slab<T> {
    type V = Map<usize, T>;

    closed spec fn view(&self) -> Map<usize, T> {
        Map::new(
            |key: usize| key < self.entries@.len() && self.entries@[key as int] is Some,
            |key: usize| self.entries@[key as int]->0,
        )
    }
}

impl<T> Slab<T> {
    /// What is free was handed out before and is vacant now, each number once.
    pub closed spec fn wf(&self) -> bool {
        &&& forall|j: int|
            0 <= j < self.free@.len() ==> (#[trigger] self.free@[j]) < self.entries@.len()
                && self.entries@[self.free@[j] as int] is None
        &&& self.free@.no_duplicates()
    }

    /// The number that the next insertion returns.
    pub closed spec fn spec_vacant_key(&self) -> usize {
        if self.free@.len() > 0 {
            self.free@.last()
        } else {
            self.entries@.len() as usize
        }
    }

    /// No number from here on was ever returned.
    pub closed spec fn spec_end(&self) -> nat {
        self.entries@.len()
    }

    /// The next number was returned before, or is the first that was not.
    pub proof fn lemma_vacant_key_is_bounded(&self)
        requires
            self.wf(),
        ensures
            self.spec_vacant_key() <= self.spec_end(),
    {
        if self.free@.len() > 0 {
            assert(self.free@[self.free@.len() - 1] < self.entries@.len());
        } else {
            assert(self.entries.len() == self.entries@.len());
        }
    }

    pub fn new() -> (slab: Self)
        ensures
            slab.wf(),
            slab@ == Map::<usize, T>::empty(),
            slab.spec_end() == 0,
    {
        let slab = Slab { entries: Vec::new(), free: Vec::new() };
        assert(slab@ =~= Map::<usize, T>::empty());
        slab
    }

    /// The number that the next insertion returns.
    pub fn vacant_key(&self) -> (key: usize)
        requires
            self.wf(),
        ensures
            key == self.spec_vacant_key(),
            key <= self.spec_end(),
            !self@.contains_key(key),
    {
        if self.free.len() > 0 {
            self.free[self.free.len() - 1]
        } else {
            self.entries.len()
        }
    }

    /// Store a value. A number that was removed is used again first.
    pub fn insert(&mut self, value: T) -> (key: usize)
        requires
            old(self).wf(),
        ensures
            final(self).wf(),
            key == old(self).spec_vacant_key(),
            !old(self)@.contains_key(key),
            final(self)@ == old(self)@.insert(key, value),
            final(self).spec_end() == (if key == old(self).spec_end() {
                old(self).spec_end() + 1
            } else {
                old(self).spec_end()
            }),
    {
        if let Some(key) = self.free.pop() {
            assert forall|j: int| 0 <= j < self.free@.len() implies self.free@[j] != key by {
                assert(self.free@[j] == old(self).free@[j]);
                assert(old(self).free@[old(self).free@.len() - 1] == key);
            }
            self.entries[key] = Some(value);
            assert(self@ =~= old(self)@.insert(key, value));
            key
        } else {
            let key = self.entries.len();
            self.entries.push(Some(value));
            assert(self@ =~= old(self)@.insert(key, value));
            key
        }
    }

    /// Take out the value under `key`, if there is one.
    pub fn try_remove(&mut self, key: usize) -> (value: Option<T>)
        requires
            old(self).wf(),
        ensures
            final(self).wf(),
            value == (if old(self)@.contains_key(key) {
                Some(old(self)@[key])
            } else {
                None
            }),
            final(self)@ == old(self)@.remove(key),
            final(self).spec_end() == old(self).spec_end(),
            value is Some ==> final(self).spec_vacant_key() == key,
            value is None ==> final(self).spec_vacant_key() == old(self).spec_vacant_key(),
    {
        if key < self.entries.len() && self.entries[key].is_some() {
            let value = self.entries[key].take();
            self.free.push(key);
            assert(self@ =~= old(self)@.remove(key));
            return value;
        }
        assert(self@ =~= old(self)@.remove(key));
        None
    }

    /// The value under `key`, if there is one.
    pub fn get(&self, key: usize) -> (value: Option<&T>)
        requires
            self.wf(),
        ensures
            value == (if self@.contains_key(key) {
                Some(&self@[key])
            } else {
                None
            }),
    {
        if key < self.entries.len() {
            self.entries[key].as_ref()
        } else {
            None
        }
    }

    /// The value under `key`, if there is one, for update in place.
    pub fn get_mut(&mut self, key: usize) -> (value: Option<&mut T>)
        requires
            old(self).wf(),
        ensures
            final(self).wf(),
            final(self).spec_end() == old(self).spec_end(),
            final(self).spec_vacant_key() == old(self).spec_vacant_key(),
            value is Some <==> old(self)@.contains_key(key),
            value is None ==> final(self)@ == old(self)@,
            value matches Some(value) ==> {
                &&& *value == old(self)@[key]
                &&& final(self)@ == old(self)@.insert(key, *final(value))
            },
    {
        if key < self.entries.len() && self.entries[key].is_some() {
            self.entries[key].as_mut()
        } else {
            None
        }
    }
}

} // verus!
