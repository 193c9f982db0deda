//! The indexed registration table: the single-owner core of the registry.
//!
//! A value handed to [`Registrations::register`] is stored in a slot and a
//! `u32` identifier for that slot is returned.  The identifier stays valid
//! until the value is reclaimed with [`Registrations::take`], after which the
//! identifier sits on a free list and may be issued again by a later
//! registration.  Looking up or taking an identifier that is not currently
//! tracked is a caller error, excluded by the preconditions; at run time such
//! a call does not return.

use vstd::pervasive::unreached;
use vstd::prelude::*;

verus! {

/// A table of registered values, keyed by `u32` identifiers.
///
/// Identifiers are slot indices: identifier `i` names slot `i`.  A slot is
/// either occupied (its identifier is tracked) or empty (its identifier is
/// on the free list, awaiting reuse).  Identifiers that have never been
/// issued are exactly those at or beyond `next_id`, the number of slots.
pub struct Registrations<T> {
    slots: Vec<Option<T>>,
    free: Vec<u32>,
}

impl<T> Registrations<T> {
    /// The map from each currently tracked identifier to the value under it.
    pub closed spec fn tracked_map(&self) -> Map<u32, T> {
        Map::new(
            |id: u32| id < self.slots@.len() && self.slots@[id as int] is Some,
            |id: u32| self.slots@[id as int]->0,
        )
    }

    /// The free list: identifiers already issued, currently untracked, and
    /// eligible for reuse.  The last element is the next to be reissued.
    pub closed spec fn free_ids(&self) -> Seq<u32> {
        self.free@
    }

    /// The next never-issued identifier; every identifier ever issued is
    /// below it.
    pub closed spec fn next_id(&self) -> int {
        self.slots@.len() as int
    }

    /// Well-formedness: every issued identifier is in exactly one of
    /// `tracked_map` and `free_ids` (nothing is double-tracked or
    /// double-freed), and the free list holds no duplicates.
    pub closed spec fn wf(&self) -> bool {
        &&& forall|i: int|
            0 <= i < self.free@.len() ==> (#[trigger] self.free@[i]) < self.slots@.len()
        &&& forall|i: int|
            0 <= i < self.free@.len() ==> self.slots@[#[trigger] self.free@[i] as int] is None
        &&& forall|i: int, j: int|
            0 <= i < j < self.free@.len() ==> self.free@[i] != self.free@[j]
        &&& forall|id: int|
            0 <= id < self.slots@.len() && self.slots@[id] is None ==> exists|i: int|
                0 <= i < self.free@.len() && #[trigger] self.free@[i] == id
    }

    /// A fresh, empty registry: nothing tracked, nothing free, no identifier
    /// ever issued.
    pub fn new() -> (r: Self)
        ensures
            r.wf(),
            r.tracked_map() == Map::<u32, T>::empty(),
            r.free_ids() == Seq::<u32>::empty(),
            r.next_id() == 0,
    {
        let r = Registrations { slots: Vec::new(), free: Vec::new() };
        proof {
            assert(r.tracked_map() =~= Map::<u32, T>::empty());
        }
        r
    }

    /// Whether a further registration is possible: either an identifier is
    /// waiting on the free list, or a fresh one can still be minted.
    pub fn can_register(&self) -> (r: bool)
        ensures
            r == (self.free_ids().len() > 0 || self.next_id() < u32::MAX as int),
    {
        self.free.len() > 0 || self.slots.len() < u32::MAX as usize
    }

    /// Store `value` in the table and return a fresh identifier for it:
    /// one distinct from every identifier currently tracked.  The identifier
    /// is the most recently freed one if any is free, else a never-issued
    /// one.
    pub fn register(&mut self, value: T) -> (id: u32)
        requires
            old(self).wf(),
            old(self).free_ids().len() == 0 ==> old(self).next_id() < u32::MAX as int,
        ensures
            final(self).wf(),
            !old(self).tracked_map().contains_key(id),
            final(self).tracked_map() == old(self).tracked_map().insert(id, value),
            old(self).free_ids().len() > 0 ==> {
                &&& id == old(self).free_ids().last()
                &&& final(self).free_ids() == old(self).free_ids().drop_last()
                &&& final(self).next_id() == old(self).next_id()
            },
            old(self).free_ids().len() == 0 ==> {
                &&& id as int == old(self).next_id()
                &&& final(self).free_ids() == old(self).free_ids()
                &&& final(self).next_id() == old(self).next_id() + 1
            },
    {
        match self.free.pop() {
            Some(id) => {
                let slot = &mut self.slots[id as usize];
                *slot = Some(value);
                proof {
                    assert(self.tracked_map() =~= old(self).tracked_map().insert(id, value));
                    assert forall|k: int|
                        0 <= k < self.slots@.len() && self.slots@[k] is None implies exists|i: int|
                        0 <= i < self.free@.len() && #[trigger] self.free@[i] == k by {
                        let i = choose|i: int|
                            0 <= i < old(self).free@.len() && #[trigger] old(self).free@[i] == k;
                        assert(old(self).free@[old(self).free@.len() - 1] == id);
                        assert(self.free@[i] == k);
                    }
                }
                id
            },
            None => {
                let id = self.slots.len() as u32;
                self.slots.push(Some(value));
                proof {
                    assert(self.tracked_map() =~= old(self).tracked_map().insert(id, value));
                }
                id
            },
        }
    }

    /// Whether `id` is currently tracked: issued, and not yet taken back.
    pub fn contains(&self, id: u32) -> (r: bool)
        ensures
            r == self.tracked_map().contains_key(id),
    {
        (id as usize) < self.slots.len() && self.slots[id as usize].is_some()
    }

    /// Borrow the value currently tracked under `id`.
    pub fn get(&self, id: u32) -> (r: &T)
        requires
            self.tracked_map().contains_key(id),
        ensures
            *r == self.tracked_map()[id],
    {
        self.slots[id as usize].as_ref().unwrap()
    }

    /// Exclusive mutable access to the value tracked under `id`: whatever the
    /// caller writes through the returned reference is what the table holds
    /// under `id` afterwards; nothing else about the table changes.
    pub fn get_mut(&mut self, id: u32) -> (r: &mut T)
        requires
            old(self).wf(),
            old(self).tracked_map().contains_key(id),
        ensures
            final(self).wf(),
            *r == old(self).tracked_map()[id],
            final(self).tracked_map() =~= old(self).tracked_map().insert(id, *final(r)),
            final(self).free_ids() == old(self).free_ids(),
            final(self).next_id() == old(self).next_id(),
    {
        let slot = &mut self.slots[id as usize];
        match slot {
            Some(v) => v,
            None => unreached(),
        }
    }

    /// The identifier partition of a well-formed table: an identifier that
    /// has ever been issued (one below `next_id`) is at any moment either
    /// tracked or free, never both; an identifier never issued is neither.
    /// This holds of every state a caller can reach, since every operation
    /// ensures well-formedness again.
    pub proof fn lemma_issued_partition(&self, id: u32)
        requires
            self.wf(),
        ensures
            !(self.tracked_map().contains_key(id) && self.free_ids().contains(id)),
            (id as int) < self.next_id() <==> self.tracked_map().contains_key(id)
                || self.free_ids().contains(id),
    {
        if self.free_ids().contains(id) {
            let i = choose|i: int|
                0 <= i < self.free@.len() && #[trigger] self.free@[i] == id;
            assert(self.slots@[id as int] is None);
        }
        if (id as int) < self.next_id() && !self.tracked_map().contains_key(id) {
            assert(self.slots@[id as int] is None);
            let i = choose|i: int|
                0 <= i < self.free@.len() && #[trigger] self.free@[i] == id;
            assert(self.free_ids()[i] == id);
        }
    }

    /// Remove the value tracked under `id` and hand ownership of it back.
    /// The identifier goes onto the free list, eligible for reuse by a later
    /// registration.
    pub fn take(&mut self, id: u32) -> (v: T)
        requires
            old(self).wf(),
            old(self).tracked_map().contains_key(id),
        ensures
            final(self).wf(),
            v == old(self).tracked_map()[id],
            final(self).tracked_map() == old(self).tracked_map().remove(id),
            final(self).free_ids() == old(self).free_ids().push(id),
            final(self).next_id() == old(self).next_id(),
    {
        let slot = &mut self.slots[id as usize];
        let taken = slot.take();
        self.free.push(id);
        proof {
            assert(self.tracked_map() =~= old(self).tracked_map().remove(id));
            assert forall|k: int|
                0 <= k < self.slots@.len() && self.slots@[k] is None implies exists|i: int|
                0 <= i < self.free@.len() && #[trigger] self.free@[i] == k by {
                if k == id as int {
                    assert(self.free@[self.free@.len() - 1] == k);
                } else {
                    let i = choose|i: int|
                        0 <= i < old(self).free@.len() && #[trigger] old(self).free@[i] == k;
                    assert(self.free@[i] == k);
                }
            }
        }
        match taken {
            Some(v) => v,
            None => unreached(),
        }
    }
}

} // verus!
