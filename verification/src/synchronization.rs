//! Synchronization primitives.
//!
//! No scheduler runs at this layer, so a guard over a shared resource
//! cannot park a waiter: it is a single-owner, non-reentrant exclusive
//! cell. Taking a cell that is already taken is a programming error that
//! must fail loudly rather than deadlock or corrupt state; here the
//! contracts rule the re-entrant take out altogether, so no run-time
//! abort path is left in verified code.

use vstd::prelude::*;

verus! {

/// A non-blocking exclusive cell: its contents are either at rest inside,
/// or taken by the single execution context that is working with them.
pub struct NullLock<T> {
    value: Option<T>,
}

impl<T> NullLock<T> {
    /// Whether the contents are currently taken.
    pub closed spec fn held(&self) -> bool {
        self.value is None
    }

    /// The contents at rest inside the cell.
    pub closed spec fn contents(&self) -> T
        recommends
            !self.held(),
    {
        self.value.unwrap()
    }

    /// A new cell around `value`, not held by anyone.
    pub fn new(value: T) -> (cell: NullLock<T>)
        ensures
            !cell.held(),
            cell.contents() == value,
    {
        NullLock { value: Some(value) }
    }

    /// Takes exclusive ownership of the contents. Taking a cell already
    /// held would be the re-entrancy error; the precondition excludes it.
    pub fn acquire(&mut self) -> (value: T)
        requires
            !old(self).held(),
        ensures
            final(self).held(),
            value == old(self).contents(),
    {
        self.value.take().unwrap()
    }

    /// Gives the contents back, releasing the cell.
    pub fn release(&mut self, value: T)
        requires
            old(self).held(),
        ensures
            !final(self).held(),
            final(self).contents() == value,
    {
        self.value = Some(value);
    }

    /// Reads the contents in place, without taking them.
    pub fn peek(&self) -> (value: &T)
        requires
            !self.held(),
        ensures
            *value == self.contents(),
    {
        match &self.value {
            Some(v) => v,
            None => unreached(),
        }
    }
}

} // verus!
