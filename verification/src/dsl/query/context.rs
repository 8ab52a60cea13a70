//! What the store-side meaning keeps between calls.
use vstd::prelude::*;

verus! {

/// Holds the connection that the predicates are meant for.
pub struct Context<C> {
    connection: C,
}

impl<C> Context<C> {
    /// The connection.
    pub closed spec fn held(&self) -> C {
        self.connection
    }

    /// A context for a connection.
    pub fn new(connection: C) -> (c: Self)
        ensures
            c.held() == connection,
    {
        Context { connection }
    }

    /// The connection.
    pub fn connection(&self) -> (c: &C)
        ensures
            *c == self.held(),
    {
        &self.connection
    }
}

} // verus!
