use vstd::prelude::*;

use crate::shared::{
    shared_new, shared_read, shared_write, subscribers_call, subscribers_len, subscribers_new,
    subscribers_push, Shared, Subscribers,
};

verus! {

/// A piece of state that runs its subscribers each time it is set.
#[verifier::reject_recursive_types(T)]
pub struct Signal<T> {
    value: Shared<T>,
    subscribers: Subscribers,
}

impl<T: Clone + Send + Sync + 'static> Signal<T> {
    /// A signal holding `value`, with no subscribers.
    pub fn new(value: T) -> Self {
        Signal { value: shared_new(value), subscribers: subscribers_new() }
    }

    /// The same as `new`.
    pub fn use_state(value: T) -> Self {
        Self::new(value)
    }

    /// The value the last `set` left (or the initial one).
    pub fn get(&self) -> T {
        shared_read(&self.value)
    }

    /// Replaces the value, then runs every subscriber in the order they subscribed.
    pub fn set(&self, new_value: T) {
        shared_write(&self.value, new_value);
        self.notify();
    }

    /// Adds a callback to run after each `set`.
    pub fn subscribe<F>(&self, f: F) where F: Fn() + Send + Sync + 'static {
        subscribers_push(&self.subscribers, f)
    }

    /// Runs the subscribers, first to last.
    fn notify(&self) {
        let n = subscribers_len(&self.subscribers);
        for i in 0..n {
            subscribers_call(&self.subscribers, i);
        }
    }
}

/// `format!("{:?}", value)`: the value's `Debug` text, which its type decides.
#[verifier::external_body]
fn debug_text_of<T: std::fmt::Debug>(value: &T) -> String {
    format!("{:?}", value)
}

impl<T: Clone + Send + Sync + std::fmt::Debug + 'static> Signal<T> {
    /// The signal's debug text: `Signal { value: <the value's debug text> }`.
    pub fn debug_text(&self) -> (r: String)
        ensures
            exists|t: Seq<char>| r@ == "Signal { value: "@ + t + " }"@,
    {
        let value = self.get();
        let inner = debug_text_of(&value);
        let mut r = String::from_str("Signal { value: ");
        r.append(inner.as_str());
        r.append(" }");
        r
    }
}

} // verus!
