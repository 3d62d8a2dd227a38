use vstd::prelude::*;

verus! {

/// A value shared by every clone of its handle and guarded by a `parking_lot::RwLock`.
/// What it holds can change through any clone, so no contract speaks of its contents.
#[verifier::external_body]
#[verifier::reject_recursive_types(T)]
pub struct Shared<T> {
    cell: std::sync::Arc<parking_lot::RwLock<T>>,
}

/// `parking_lot::RwLock::new`, placed behind a reference count.
#[verifier::external_body]
pub(crate) fn shared_new<T>(value: T) -> Shared<T> {
    Shared { cell: std::sync::Arc::new(parking_lot::RwLock::new(value)) }
}

/// `RwLock::read`, then a clone of the value. What comes back is whatever the last
/// write through any handle left; nothing is stated of it.
#[verifier::external_body]
pub(crate) fn shared_read<T: Clone>(s: &Shared<T>) -> T {
    s.cell.read().clone()
}

/// `RwLock::write`, replacing the value.
#[verifier::external_body]
pub(crate) fn shared_write<T>(s: &Shared<T>, value: T) {
    *s.cell.write() = value;
}

/// Another handle on the same value (`Arc::clone`).
#[verifier::external_body]
pub(crate) fn shared_handle<T>(s: &Shared<T>) -> Shared<T> {
    Shared { cell: s.cell.clone() }
}

/// The callbacks that a state cell runs when its value changes, shared by every clone
/// of its handle and guarded by a `parking_lot::RwLock`.
#[verifier::external_body]
pub struct Subscribers {
    list: std::sync::Arc<parking_lot::RwLock<Vec<Box<dyn Fn() + Send + Sync>>>>,
}

/// An empty list of callbacks.
#[verifier::external_body]
pub(crate) fn subscribers_new() -> Subscribers {
    Subscribers { list: std::sync::Arc::new(parking_lot::RwLock::new(Vec::new())) }
}

/// `RwLock::write`, then appends a callback.
#[verifier::external_body]
pub(crate) fn subscribers_push<F: Fn() + Send + Sync + 'static>(s: &Subscribers, f: F) {
    s.list.write().push(Box::new(f));
}

/// `RwLock::read`, then the number of callbacks.
#[verifier::external_body]
pub(crate) fn subscribers_len(s: &Subscribers) -> usize {
    s.list.read().len()
}

/// `RwLock::read`, then runs the callback at position `i`, if there is one.
#[verifier::external_body]
pub(crate) fn subscribers_call(s: &Subscribers, i: usize) {
    if let Some(f) = s.list.read().get(i) {
        f()
    }
}

} // verus!
