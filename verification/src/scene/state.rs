//! The state component of a node: the flags the scene reads each frame.
use vstd::prelude::*;

verus! {

/// Per-node state driven by the scene.
#[derive(Clone, Copy, Debug, PartialEq, Eq, Structural)]
pub struct NodeState {
    /// The node, with all its descendants, is destroyed on the next frame.
    pub destruction_requested: bool,
}

impl NodeState {
    pub fn new() -> (s: NodeState)
        ensures
            !s.destruction_requested,
    {
        NodeState { destruction_requested: false }
    }
}

} // verus!
