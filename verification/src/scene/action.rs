//! The actions queued on a node: style changes, listener changes and tree changes.
use vstd::prelude::*;
use crate::event::EventType;
use crate::ids::{EventCallbackID, NodeID};
use crate::util::{Color, Position};

verus! {

/// The family an action belongs to; each family has its own queue.
#[derive(Clone, Copy, Debug, PartialEq, Eq, Structural, Hash)]
pub enum ActionType {
    Style,
    EventListener,
    NodeTree,
}

/// Who queued an action.
#[derive(Clone, Copy, Debug, PartialEq, Eq, Structural, Hash)]
pub enum ActionOrigin {
    /// The program, outside any event.
    Code,
    /// An event listener.
    Event,
    /// A hover or active style callback.
    Visual,
}

/// A change of the node's look.
#[derive(Clone, Copy, Debug, PartialEq, Eq, Structural)]
pub enum StyleAction {
    BGColor { color: Color },
    Layer { layer: usize },
    BorderRadius { radius: u32 },
    /// Scale factors, as bit patterns of `f32`.
    Scale { x: u32, y: u32 },
    Position { position: Option<Position>, absolute: Option<bool> },
    Size { width: u32, height: u32 },
    /// Holds back the following style actions for `ms` milliseconds.
    Wait { ms: u64 },
}

/// A change of the node's event listeners. The callback of an `Add` is kept
/// by the caller, in the same order as the queued actions.
#[derive(Clone, Copy, Debug, PartialEq, Eq, Structural)]
pub enum EventListenerAction {
    Add { event_type: EventType },
    Remove { target: EventCallbackID },
}

/// A change of the node's place in the tree.
#[derive(Clone, Copy, Debug, PartialEq, Eq, Structural)]
pub enum NodeTreeAction {
    AddChild { child: NodeID },
    RemoveChild { child: NodeID },
    SetParent { parent: Option<NodeID> },
}

/// An action of any family, with its origin.
#[derive(Clone, Copy, Debug, PartialEq, Eq, Structural)]
pub enum Action {
    Style { action: StyleAction, origin: ActionOrigin },
    EventListener { action: EventListenerAction, origin: ActionOrigin },
    NodeTree { action: NodeTreeAction, origin: ActionOrigin },
}

pub open spec fn spec_action_type(a: Action) -> ActionType {
    match a {
        Action::Style { .. } => ActionType::Style,
        Action::EventListener { .. } => ActionType::EventListener,
        Action::NodeTree { .. } => ActionType::NodeTree,
    }
}

impl Action {
    /// The family of this action.
    pub fn get_type(&self) -> (r: ActionType)
        ensures
            r == spec_action_type(*self),
    {
        match self {
            Action::Style { .. } => ActionType::Style,
            Action::EventListener { .. } => ActionType::EventListener,
            Action::NodeTree { .. } => ActionType::NodeTree,
        }
    }
}

} // verus!
