//! The hold that an application has on its server.

use crate::event::{Backend, Event};
use vstd::prelude::*;

verus! {

/// Keeps a server running. `S` is the way to its event loop.
#[derive(Debug)]
pub struct BluerHandle<S> {
    pub tx: S,
}

impl<S> BluerHandle<S> {
    /// Returns what is to be sent by `tx` when the handle is dropped.
    pub fn close<B: Backend>(&mut self) -> (r: Event<B>)
        ensures
            *final(self) == *old(self),
            r == Event::<B>::OnHandleDrop,
    {
        Event::OnHandleDrop
    }
}

} // verus!
