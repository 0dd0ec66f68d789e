//! A thread-safe mutable cell for a counter shared across calls.
//!
//! The registry stores one value per type and hands out shared
//! references, so a registered value that must change between calls has
//! to synchronize its own mutation. [`SharedCell`] wraps a counter in a
//! mutex behind a shared handle; handlers resolved from an
//! [`crate::Injector`] read and write it through `&self`. The cell's
//! content lives outside the verified state: nothing is proved about
//! the value it holds, only the registry bookkeeping around it.

use vstd::prelude::*;

use std::sync::Arc;
use std::sync::Mutex;

verus! {

/// Declares `std::sync::Mutex` so that it can stand in fields; the
/// type is opaque here, and only the wrappers below touch it.
#[verifier::external_type_specification]
#[verifier::external_body]
#[verifier::reject_recursive_types(T)]
pub struct ExMutex<T: ?Sized>(Mutex<T>);

/// A shared, internally synchronized counter cell.
pub struct SharedCell {
    inner: Arc<Mutex<u32>>,
}

impl SharedCell {
    /// Creates a cell holding `v`.
    ///
    /// Relies on `std::sync::Mutex::new`: the lock starts unlocked,
    /// holding the given value.
    #[verifier::external_body]
    pub fn new(v: u32) -> (c: SharedCell) {
        SharedCell { inner: Arc::new(Mutex::new(v)) }
    }

    /// Returns the value the cell holds at the moment of the call.
    /// The cell is shared and internally mutable, so nothing relates
    /// the result to earlier reads or writes.
    ///
    /// Relies on `std::sync::Mutex::lock`: it returns the guarded
    /// value, recovered from the poison wrapper if a panic elsewhere
    /// poisoned the lock.
    #[verifier::external_body]
    pub fn get(&self) -> (v: u32) {
        match self.inner.lock() {
            Ok(g) => *g,
            Err(e) => *e.into_inner(),
        }
    }

    /// Replaces the value the cell holds.
    ///
    /// Relies on `std::sync::Mutex::lock`: it grants exclusive access
    /// to the guarded value until the guard drops, recovered from the
    /// poison wrapper if a panic elsewhere poisoned the lock.
    #[verifier::external_body]
    pub fn set(&self, v: u32) {
        match self.inner.lock() {
            Ok(mut g) => {
                *g = v;
            },
            Err(e) => {
                *e.into_inner() = v;
            },
        }
    }
}

} // verus!
