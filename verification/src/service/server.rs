//! Declared servers and the set of listeners a process serves.

use vstd::prelude::*;

verus! {

/// A server's name and address.
#[derive(Clone, Copy, Debug)]
pub struct Server {
    pub name: &'static str,
    pub ip_address: &'static str,
    pub port: u16,
}

/// The listeners a process serves, in the order they were added; each is
/// run on its own task.
pub struct AxumServer<L> {
    listeners: Vec<L>,
}

impl<L> AxumServer<L> {
    pub closed spec fn listeners_spec(&self) -> Seq<L> {
        self.listeners@
    }

    /// A server with no listeners.
    pub fn new() -> (r: Self)
        ensures
            r.listeners_spec() == Seq::<L>::empty(),
    {
        AxumServer { listeners: Vec::new() }
    }

    /// Adds a listener after the others.
    pub fn push_listener(self, listener: L) -> (r: Self)
        ensures
            r.listeners_spec() == self.listeners_spec().push(listener),
    {
        let mut listeners = self.listeners;
        listeners.push(listener);
        AxumServer { listeners }
    }

    pub fn listener_count(&self) -> (r: usize)
        ensures
            r == self.listeners_spec().len(),
    {
        self.listeners.len()
    }

    /// The listeners, in the order they were added.
    pub fn into_listeners(self) -> (r: Vec<L>)
        ensures
            r@ == self.listeners_spec(),
    {
        self.listeners
    }
}

impl<L> Default for AxumServer<L> {
    fn default() -> (r: Self)
        ensures
            r.listeners_spec() == Seq::<L>::empty(),
    {
        Self::new()
    }
}

} // verus!
