//! The application context shared by the handlers of a server.

use vstd::prelude::*;

verus! {

/// A context value that every handler receives a clone of.
#[derive(Clone)]
pub struct AppContext<C: Clone> {
    context: C,
}

impl<C: Clone> AppContext<C> {
    pub closed spec fn context_spec(&self) -> C {
        self.context
    }

    pub fn new(context: C) -> (r: Self)
        ensures
            r.context_spec() == context,
    {
        AppContext { context }
    }

    /// A clone of the context.
    pub fn ctx(&self) -> (r: C)
        ensures
            cloned(self.context_spec(), r),
    {
        self.context.clone()
    }
}

} // verus!
