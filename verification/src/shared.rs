//! The lock-protected registry: the indexed table behind a reader-writer
//! lock, usable from several threads through a shared reference.
//!
//! Every operation acquires the lock for writing, works on the table with
//! the verified operations of [`Registrations`], and releases the lock.  The
//! lock's invariant is the table's well-formedness, so in every state any
//! thread can observe — whatever the interleaving — no identifier is both
//! tracked and free, and the free list holds no duplicates: releasing the
//! lock is only possible once that has been proved of the table put back.
//!
//! Because the registry is reached through a shared reference, an operation
//! cannot promise in its contract which identifiers the table holds at entry;
//! where the single-owner table makes a precondition of a tracked identifier,
//! the operations here return `None` instead and leave the table unchanged.

use crate::table::Registrations;
use core::mem;
use vstd::prelude::*;
use vstd::rwlock::RwLock;

verus! {

/// A registry shared between threads: the registration table under a lock
/// whose invariant is the table's well-formedness.
#[verifier::reject_recursive_types(T)]
pub struct SharedRegistry<T> {
    lock: RwLock<Registrations<T>, spec_fn(Registrations<T>) -> bool>,
}

impl<T> SharedRegistry<T> {
    /// The lock guards exactly the well-formed tables: a thread that acquires
    /// it receives a well-formed table, and can only release it with one.
    pub closed spec fn wf(&self) -> bool {
        forall|t: Registrations<T>| #[trigger] self.lock.inv(t) <==> t.wf()
    }

    /// A fresh shared registry over an empty table.
    pub fn new() -> (r: Self)
        ensures
            r.wf(),
    {
        let table = Registrations::<T>::new();
        let lock = RwLock::new(table, Ghost(|t: Registrations<T>| t.wf()));
        SharedRegistry { lock }
    }

    /// Store `value` and return a fresh identifier for it, distinct from
    /// every identifier tracked at that moment.  Returns `None` only when
    /// the identifier space is exhausted: no identifier is free and `u32`
    /// many are tracked.
    pub fn register(&self, value: T) -> (id: Option<u32>)
        requires
            self.wf(),
    {
        let (mut table, handle) = self.lock.acquire_write();
        if table.can_register() {
            let id = table.register(value);
            handle.release_write(table);
            Some(id)
        } else {
            handle.release_write(table);
            None
        }
    }

    /// Put `value` in under `id` and return the value tracked there until
    /// now; when `id` is not currently tracked, return `None` and leave the
    /// table unchanged.
    pub fn replace(&self, id: u32, value: T) -> (previous: Option<T>)
        requires
            self.wf(),
    {
        let (mut table, handle) = self.lock.acquire_write();
        if table.contains(id) {
            let slot = table.get_mut(id);
            let mut value = value;
            mem::swap(slot, &mut value);
            handle.release_write(table);
            Some(value)
        } else {
            handle.release_write(table);
            None
        }
    }

    /// Remove the value under `id` and hand its ownership back, retiring the
    /// identifier onto the free list; when `id` is not currently tracked,
    /// return `None` and leave the table unchanged.
    pub fn take(&self, id: u32) -> (value: Option<T>)
        requires
            self.wf(),
    {
        let (mut table, handle) = self.lock.acquire_write();
        if table.contains(id) {
            let value = table.take(id);
            handle.release_write(table);
            Some(value)
        } else {
            handle.release_write(table);
            None
        }
    }
}

} // verus!
