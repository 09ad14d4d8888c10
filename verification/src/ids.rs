//! Identifiers of nodes and event callbacks.
use vstd::prelude::*;

verus! {

/// An unique representation of a node.
#[derive(Clone, Copy, Debug, PartialEq, Eq, Structural, Hash, PartialOrd, Ord)]
pub struct NodeID(pub u32);

impl NodeID {
    /// Builds the identifier with the given number.
    pub fn id(id: u32) -> (r: NodeID)
        ensures
            r.0 == id,
    {
        NodeID(id)
    }

    /// The number behind the identifier.
    pub fn value(&self) -> (r: u32)
        ensures
            r == self.0,
    {
        self.0
    }

    /// Hands out the identifier numbered by `counter` and advances the
    /// counter, wrapping around at `u32::MAX`.
    pub fn next(counter: &mut u32) -> (r: NodeID)
        ensures
            r.0 == *old(counter),
            *final(counter) == (if *old(counter) == u32::MAX { 0 } else { (*old(counter) + 1) as u32 }),
    {
        let r = NodeID(*counter);
        *counter = counter.wrapping_add(1);
        r
    }
}

/// Identifies a registered event callback.
#[derive(Clone, Copy, Debug, PartialEq, Eq, Structural, Hash)]
pub struct EventCallbackID(pub u32);

impl EventCallbackID {
    /// Builds the identifier with the given number.
    pub fn id(id: u32) -> (r: EventCallbackID)
        ensures
            r.0 == id,
    {
        EventCallbackID(id)
    }

    /// Hands out the identifier numbered by `counter` and advances the
    /// counter, wrapping around at `u32::MAX`.
    pub fn next(counter: &mut u32) -> (r: EventCallbackID)
        ensures
            r.0 == *old(counter),
            *final(counter) == (if *old(counter) == u32::MAX { 0 } else { (*old(counter) + 1) as u32 }),
    {
        let r = EventCallbackID(*counter);
        *counter = counter.wrapping_add(1);
        r
    }
}

/// Identifies a listener registered in an event manager.
pub type CallbackID = EventCallbackID;

} // verus!
