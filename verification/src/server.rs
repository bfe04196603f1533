//! A thin server shell around a store, for a transport layer to wrap.
use vstd::prelude::*;

verus! {

/// Holds the store a transport layer serves requests against.
pub struct AttributeServer<T> {
    store: T,
}

impl<T> AttributeServer<T> {
    /// The store this server serves.
    pub closed spec fn spec_store(&self) -> &T {
        &self.store
    }

    /// Wraps a store.
    pub fn new(store: T) -> (r: Self)
        ensures
            *r.spec_store() == store,
    {
        AttributeServer { store }
    }

    /// The store this server serves.
    pub fn store(&self) -> (r: &T)
        ensures
            r == self.spec_store(),
    {
        &self.store
    }

    /// Liveness probe: answers without touching the store.
    pub fn ping(&self) {
    }
}

} // verus!
