//! Collects the lifecycle events of nodes until they are dispatched.
use vstd::prelude::*;
use crate::event::types::LifecycleEvent;
use crate::ids::NodeID;

verus! {

/// A queue of node lifecycle events.
pub struct LifecycleManager {
    queue: Vec<LifecycleEvent>,
}

impl LifecycleManager {
    /// The queued events, oldest first.
    pub closed spec fn spec_queue(&self) -> Seq<LifecycleEvent> {
        self.queue@
    }

    pub fn new() -> (m: LifecycleManager)
        ensures
            m.spec_queue() == Seq::<LifecycleEvent>::empty(),
    {
        LifecycleManager { queue: Vec::new() }
    }

    /// Queues the creation of `target`.
    pub fn handle_creation(&mut self, target: NodeID)
        ensures
            final(self).spec_queue() == old(self).spec_queue().push(LifecycleEvent::Creation { target }),
    {
        self.queue.push(LifecycleEvent::Creation { target });
    }

    /// Queues an update of `target`.
    pub fn handle_update(&mut self, target: NodeID)
        ensures
            final(self).spec_queue() == old(self).spec_queue().push(LifecycleEvent::Update { target }),
    {
        self.queue.push(LifecycleEvent::Update { target });
    }

    /// Queues the destruction of `target`.
    pub fn handle_destruction(&mut self, target: NodeID)
        ensures
            final(self).spec_queue() == old(self).spec_queue().push(LifecycleEvent::Destruction { target }),
    {
        self.queue.push(LifecycleEvent::Destruction { target });
    }

    /// Returns the queued events, oldest first, and empties the queue.
    pub fn take_events(&mut self) -> (r: Vec<LifecycleEvent>)
        ensures
            r@ == old(self).spec_queue(),
            final(self).spec_queue() == Seq::<LifecycleEvent>::empty(),
    {
        let mut taken: Vec<LifecycleEvent> = Vec::new();
        std::mem::swap(&mut taken, &mut self.queue);
        taken
    }
}

} // verus!
