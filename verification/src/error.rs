//! The error type of the library.
use vstd::prelude::*;
use crate::event::EventKind;
use crate::ids::NodeID;
use crate::message::{decimal, push_decimal, push_str, string_from_chars};

verus! {

/// What can go wrong in the library.
#[derive(Debug, PartialEq)]
pub enum PrismaError {
    /// Returned when an error occurs during application initialization.
    /// Contains the underlying error message.
    InitError(String),
    /// Returned when an invalid parent-child relationship is detected.
    /// Contains the parent and child node IDs.
    InvalidTree(NodeID, NodeID),
    /// Returned when the node does not contain a state associated with the given key.
    /// Contains the missing state key.
    NodeStateNotFound(String),
    /// Returned when a node component is requested using an invalid [`NodeID`].
    /// Contains the invalid node ID.
    NodeComponentNotFound(NodeID),
    /// Returned when a node with the given ID could not be found.
    /// Contains the missing node ID.
    NodeNotFound(NodeID),
    /// Returned when an error occurs during rendering.
    /// Contains the underlying error message.
    RenderError(String),
    /// Returned when an event doesn't match the expected event type.
    /// Contains the expected and found event types.
    UnexpectedEventType(EventKind, EventKind),
    /// Returned when a resource is not found.
    ResourceNotFound(String),
}

/// The name of an event kind, as its derived `Debug` prints it.
pub open spec fn kind_name(k: EventKind) -> Seq<char> {
    match k {
        EventKind::Quit => "Quit"@,
        EventKind::AppCloseRequest => "AppCloseRequest"@,
        EventKind::CancelAppCloseRequest => "CancelAppCloseRequest"@,
        EventKind::Window => "Window"@,
        EventKind::Lifecycle => "Lifecycle"@,
        EventKind::Mouse => "Mouse"@,
    }
}

/// The message of an error.
pub open spec fn error_text(e: PrismaError) -> Seq<char> {
    match e {
        PrismaError::InitError(m) => "Initialization error: "@ + m@,
        PrismaError::RenderError(m) => "Render error: "@ + m@,
        PrismaError::NodeNotFound(id) => "Node "@ + decimal(id.0 as nat) + " not found"@,
        PrismaError::NodeStateNotFound(t) => "State "@ + t@ + " not found."@,
        PrismaError::NodeComponentNotFound(id) => "Component not found for node: "@ + decimal(id.0 as nat),
        PrismaError::InvalidTree(p, c) => "Invalid tree for parent "@ + decimal(p.0 as nat) + " and child "@
            + decimal(c.0 as nat),
        PrismaError::UnexpectedEventType(x, f) => "Event types do not matches: expected "@ + kind_name(x)
            + " but found "@ + kind_name(f),
        PrismaError::ResourceNotFound(m) => "Resource not found: "@ + m@,
    }
}

/// Appends the name of `k` to `v`.
fn push_kind(v: &mut Vec<char>, k: EventKind)
    ensures
        final(v)@ == old(v)@ + kind_name(k),
{
    match k {
        EventKind::Quit => push_str(v, "Quit"),
        EventKind::AppCloseRequest => push_str(v, "AppCloseRequest"),
        EventKind::CancelAppCloseRequest => push_str(v, "CancelAppCloseRequest"),
        EventKind::Window => push_str(v, "Window"),
        EventKind::Lifecycle => push_str(v, "Lifecycle"),
        EventKind::Mouse => push_str(v, "Mouse"),
    }
}

impl PrismaError {
    /// The message that describes the error.
    pub fn message(&self) -> (r: String)
        ensures
            r@ == error_text(*self),
    {
        let mut v: Vec<char> = Vec::new();
        match self {
            PrismaError::InitError(m) => {
                push_str(&mut v, "Initialization error: ");
                push_str(&mut v, m.as_str());
            },
            PrismaError::RenderError(m) => {
                push_str(&mut v, "Render error: ");
                push_str(&mut v, m.as_str());
            },
            PrismaError::NodeNotFound(id) => {
                push_str(&mut v, "Node ");
                push_decimal(&mut v, id.0);
                push_str(&mut v, " not found");
            },
            PrismaError::NodeStateNotFound(t) => {
                push_str(&mut v, "State ");
                push_str(&mut v, t.as_str());
                push_str(&mut v, " not found.");
            },
            PrismaError::NodeComponentNotFound(id) => {
                push_str(&mut v, "Component not found for node: ");
                push_decimal(&mut v, id.0);
            },
            PrismaError::InvalidTree(p, c) => {
                push_str(&mut v, "Invalid tree for parent ");
                push_decimal(&mut v, p.0);
                push_str(&mut v, " and child ");
                push_decimal(&mut v, c.0);
            },
            PrismaError::UnexpectedEventType(x, f) => {
                push_str(&mut v, "Event types do not matches: expected ");
                push_kind(&mut v, *x);
                push_str(&mut v, " but found ");
                push_kind(&mut v, *f);
            },
            PrismaError::ResourceNotFound(m) => {
                push_str(&mut v, "Resource not found: ");
                push_str(&mut v, m.as_str());
            },
        }
        assert(v@ =~= error_text(*self));
        string_from_chars(&v)
    }
}

} // verus!
