//! A value shared by exactly two threads, guarded by a Dekker lock.
//!
//! The value lives in an `UnsafeCell`; handing out mutable access to it after
//! taking the lock needs `unsafe` code and stays with the threads that share
//! the container. This module owns the pairing of value and lock and the
//! release paths of the two threads.
use vstd::prelude::*;
use std::cell::UnsafeCell;
use crate::dekker::Dekker;

verus! {

/// `std::cell::UnsafeCell`, declared so that a container can hold one. Opaque:
/// nothing is claimed of what it holds.
#[verifier::external_type_specification]
#[verifier::external_body]
#[verifier::reject_recursive_types(T)]
pub struct ExUnsafeCell<T: ?Sized>(UnsafeCell<T>);

/// `UnsafeCell::new` wraps `value` in a fresh cell; it returns normally for
/// every value. What the cell holds is not modelled: it can change through a
/// shared reference, so nothing is claimed of it.
pub assume_specification<T>[ UnsafeCell::<T>::new ](value: T) -> UnsafeCell<T>;

/// Container for access to a shared resource; works with 2 threads only.
#[verifier::reject_recursive_types(T)]
pub struct SharedContainer<T> {
    data: UnsafeCell<T>,
    dek_lock: Dekker,
}

impl<T> SharedContainer<T> {
    /// The lock of this container.
    pub closed spec fn lock_of(&self) -> Dekker {
        self.dek_lock
    }

    /// The cell of this container.
    pub closed spec fn cell_of(&self) -> UnsafeCell<T> {
        self.data
    }

    /// Wraps `data` with a fresh lock (both flags down, `turn` at thread 0).
    pub fn new(data: T) -> Self {
        Self { data: UnsafeCell::new(data), dek_lock: Dekker::new() }
    }

    /// The lock that guards the value.
    pub fn guard(&self) -> (r: &Dekker)
        ensures
            *r == self.lock_of(),
    {
        &self.dek_lock
    }

    /// The cell that holds the value.
    pub fn cell(&self) -> (r: &UnsafeCell<T>)
        ensures
            *r == self.cell_of(),
    {
        &self.data
    }

    /// Thread 0 releases the resource.
    pub fn unlock_first(&self) {
        self.dek_lock.unlock(0);
    }

    /// Thread 1 releases the resource.
    pub fn unlock_second(&self) {
        self.dek_lock.unlock(1);
    }
}

} // verus!
