use vstd::prelude::*;

use crate::shared::{shared_handle, shared_new, shared_read, shared_write, Shared};

verus! {

/// A named piece of state that widgets read and the client changes. Clones share the
/// value.
#[verifier::reject_recursive_types(T)]
pub struct Signal<T> {
    id: String,
    value: Shared<T>,
}

impl<T: Clone> Signal<T> {
    /// The identifier by which the client names this signal.
    pub closed spec fn spec_id(&self) -> Seq<char> {
        self.id@
    }

    /// A new signal named `id` that holds `initial`.
    pub fn use_state(id: String, initial: T) -> (r: Self)
        ensures
            r.spec_id() == id@,
    {
        Signal { id, value: shared_new(initial) }
    }

    /// The signal's identifier.
    pub fn id(&self) -> (r: &str)
        ensures
            r@ == self.spec_id(),
    {
        self.id.as_str()
    }

    /// The value that the last `set` through any clone left (or the initial one).
    pub fn get(&self) -> T {
        shared_read(&self.value)
    }

    /// Replaces the value for every clone.
    pub fn set(&self, new_value: T) {
        shared_write(&self.value, new_value)
    }
}

impl<T: Clone> Clone for Signal<T> {
    /// Another handle on the same signal.
    fn clone(&self) -> (r: Self)
        ensures
            r.spec_id() == self.spec_id(),
    {
        Signal { id: self.id.clone(), value: shared_handle(&self.value) }
    }
}

} // verus!
