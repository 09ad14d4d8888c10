//! The events of the library and their types.
use vstd::prelude::*;
use crate::ids::NodeID;

verus! {

/// A mouse button.
#[derive(Clone, Copy, Debug, PartialEq, Eq, Structural, Hash)]
pub enum MouseButton {
    Left,
    Right,
    Middle,
    X1,
    X2,
    Unknown,
}

/// The kind of a mouse event.
#[derive(Clone, Copy, Debug, PartialEq, Eq, Structural, Hash)]
pub enum MouseEventType {
    MouseMove,
    MouseDown,
    MouseUp,
    Click,
    DragStart,
    Drag,
    DragEnd,
    Enter,
    Leave,
}

/// The kind of a window event.
#[derive(Clone, Copy, Debug, PartialEq, Eq, Structural, Hash)]
pub enum WindowEventType {
    Move,
    Resized,
    Minimized,
    Maximized,
    CloseRequest,
}

/// The kind of a node lifecycle event.
#[derive(Clone, Copy, Debug, PartialEq, Eq, Structural, Hash)]
pub enum LifecycleEventType {
    Update,
    Creation,
    Destruction,
}

/// The family an event belongs to.
#[derive(Clone, Copy, Debug, PartialEq, Eq, Structural, Hash)]
pub enum EventKind {
    Quit,
    AppCloseRequest,
    CancelAppCloseRequest,
    Window,
    Lifecycle,
    Mouse,
}

/// The type of an event, used to register listeners.
#[derive(Clone, Copy, Debug, PartialEq, Eq, Structural, Hash)]
pub enum EventType {
    Mouse(MouseEventType),
    Window(WindowEventType),
    Lifecycle(LifecycleEventType),
    AppCloseRequest,
    CancelAppCloseRequest,
    Quit,
}

/// Whether an event of the given type travels up to the parents of its
/// target when no listener decided otherwise: only mouse button presses,
/// releases and clicks do.
pub open spec fn spec_bubbles_by_default(t: EventType) -> bool {
    t == EventType::Mouse(MouseEventType::MouseDown) || t == EventType::Mouse(MouseEventType::MouseUp)
        || t == EventType::Mouse(MouseEventType::Click)
}

/// The family of an event type.
pub open spec fn spec_kind_of_type(t: EventType) -> EventKind {
    match t {
        EventType::Mouse(_) => EventKind::Mouse,
        EventType::Window(_) => EventKind::Window,
        EventType::Lifecycle(_) => EventKind::Lifecycle,
        EventType::AppCloseRequest => EventKind::AppCloseRequest,
        EventType::CancelAppCloseRequest => EventKind::CancelAppCloseRequest,
        EventType::Quit => EventKind::Quit,
    }
}

impl EventType {
    /// Returns `true` if events of this type bubble to the target's parent by default.
    pub fn bubbles_by_default(&self) -> (r: bool)
        ensures
            r == spec_bubbles_by_default(*self),
    {
        match self {
            EventType::Lifecycle(..)
            | EventType::Mouse(MouseEventType::Enter)
            | EventType::Mouse(MouseEventType::Leave)
            | EventType::Mouse(MouseEventType::MouseMove)
            | EventType::Mouse(MouseEventType::DragStart)
            | EventType::Mouse(MouseEventType::Drag)
            | EventType::Mouse(MouseEventType::DragEnd)
            | EventType::AppCloseRequest
            | EventType::CancelAppCloseRequest
            | EventType::Quit
            | EventType::Window(..) => false,
            EventType::Mouse(MouseEventType::MouseDown)
            | EventType::Mouse(MouseEventType::MouseUp)
            | EventType::Mouse(MouseEventType::Click) => true,
        }
    }

    /// Returns the family of this event type.
    pub fn get_kind(&self) -> (r: EventKind)
        ensures
            r == spec_kind_of_type(*self),
    {
        match self {
            EventType::Mouse(..) => EventKind::Mouse,
            EventType::Window(..) => EventKind::Window,
            EventType::Lifecycle(..) => EventKind::Lifecycle,
            EventType::Quit => EventKind::Quit,
            EventType::AppCloseRequest => EventKind::AppCloseRequest,
            EventType::CancelAppCloseRequest => EventKind::CancelAppCloseRequest,
        }
    }
}

/// A mouse event, with the cursor position in window coordinates.
#[derive(Clone, Copy, Debug, PartialEq, Eq, Structural)]
pub enum MouseEvent {
    MouseMove { x: i32, y: i32 },
    MouseDown { x: i32, y: i32, mouse_btn: MouseButton },
    MouseUp { x: i32, y: i32, mouse_btn: MouseButton },
    Click { x: i32, y: i32, mouse_btn: MouseButton },
    DragStart { x: i32, y: i32, mouse_btn: MouseButton },
    Drag { x: i32, y: i32, mouse_btn: MouseButton },
    DragEnd { x: i32, y: i32, mouse_btn: MouseButton },
    Enter { x: i32, y: i32 },
    Leave { x: i32, y: i32 },
}

pub open spec fn spec_mouse_event_type(e: MouseEvent) -> MouseEventType {
    match e {
        MouseEvent::MouseMove { .. } => MouseEventType::MouseMove,
        MouseEvent::MouseDown { .. } => MouseEventType::MouseDown,
        MouseEvent::MouseUp { .. } => MouseEventType::MouseUp,
        MouseEvent::Click { .. } => MouseEventType::Click,
        MouseEvent::DragStart { .. } => MouseEventType::DragStart,
        MouseEvent::Drag { .. } => MouseEventType::Drag,
        MouseEvent::DragEnd { .. } => MouseEventType::DragEnd,
        MouseEvent::Enter { .. } => MouseEventType::Enter,
        MouseEvent::Leave { .. } => MouseEventType::Leave,
    }
}

impl MouseEvent {
    pub fn event_type(&self) -> (r: MouseEventType)
        ensures
            r == spec_mouse_event_type(*self),
    {
        match self {
            MouseEvent::MouseMove { .. } => MouseEventType::MouseMove,
            MouseEvent::MouseDown { .. } => MouseEventType::MouseDown,
            MouseEvent::MouseUp { .. } => MouseEventType::MouseUp,
            MouseEvent::Click { .. } => MouseEventType::Click,
            MouseEvent::DragStart { .. } => MouseEventType::DragStart,
            MouseEvent::Drag { .. } => MouseEventType::Drag,
            MouseEvent::DragEnd { .. } => MouseEventType::DragEnd,
            MouseEvent::Enter { .. } => MouseEventType::Enter,
            MouseEvent::Leave { .. } => MouseEventType::Leave,
        }
    }
}

/// A window event.
#[derive(Clone, Copy, Debug, PartialEq, Eq, Structural)]
pub enum WindowEvent {
    Move { window_id: u32, x: i32, y: i32 },
    Resized { width: i32, height: i32 },
    Minimized { x: i32, y: i32 },
    Maximized { x: i32, y: i32 },
    CloseRequest,
}

pub open spec fn spec_window_event_type(e: WindowEvent) -> WindowEventType {
    match e {
        WindowEvent::Move { .. } => WindowEventType::Move,
        WindowEvent::Resized { .. } => WindowEventType::Resized,
        WindowEvent::Minimized { .. } => WindowEventType::Minimized,
        WindowEvent::Maximized { .. } => WindowEventType::Maximized,
        WindowEvent::CloseRequest => WindowEventType::CloseRequest,
    }
}

impl WindowEvent {
    pub fn event_type(&self) -> (r: WindowEventType)
        ensures
            r == spec_window_event_type(*self),
    {
        match self {
            WindowEvent::Move { .. } => WindowEventType::Move,
            WindowEvent::Resized { .. } => WindowEventType::Resized,
            WindowEvent::Minimized { .. } => WindowEventType::Minimized,
            WindowEvent::Maximized { .. } => WindowEventType::Maximized,
            WindowEvent::CloseRequest => WindowEventType::CloseRequest,
        }
    }
}

/// A node lifecycle event.
#[derive(Clone, Copy, Debug, PartialEq, Eq, Structural, Hash)]
pub enum LifecycleEvent {
    Update { target: NodeID },
    Creation { target: NodeID },
    Destruction { target: NodeID },
}

pub open spec fn spec_lifecycle_event_type(e: LifecycleEvent) -> LifecycleEventType {
    match e {
        LifecycleEvent::Update { .. } => LifecycleEventType::Update,
        LifecycleEvent::Creation { .. } => LifecycleEventType::Creation,
        LifecycleEvent::Destruction { .. } => LifecycleEventType::Destruction,
    }
}

impl LifecycleEvent {
    pub fn event_type(&self) -> (r: LifecycleEventType)
        ensures
            r == spec_lifecycle_event_type(*self),
    {
        match self {
            LifecycleEvent::Creation { .. } => LifecycleEventType::Creation,
            LifecycleEvent::Update { .. } => LifecycleEventType::Update,
            LifecycleEvent::Destruction { .. } => LifecycleEventType::Destruction,
        }
    }
}

/// Any event the library dispatches.
#[derive(Clone, Copy, Debug, PartialEq, Eq, Structural)]
pub enum Event {
    Mouse { event: MouseEvent },
    Window { event: WindowEvent },
    Lifecycle { event: LifecycleEvent },
    AppCloseRequest,
    CancelAppCloseRequest,
    Quit,
}

pub open spec fn spec_event_type(e: Event) -> EventType {
    match e {
        Event::Mouse { event } => EventType::Mouse(spec_mouse_event_type(event)),
        Event::Window { event } => EventType::Window(spec_window_event_type(event)),
        Event::Lifecycle { event } => EventType::Lifecycle(spec_lifecycle_event_type(event)),
        Event::AppCloseRequest => EventType::AppCloseRequest,
        Event::CancelAppCloseRequest => EventType::CancelAppCloseRequest,
        Event::Quit => EventType::Quit,
    }
}

impl Event {
    /// Returns the type of this event.
    pub fn get_type(&self) -> (r: EventType)
        ensures
            r == spec_event_type(*self),
    {
        match self {
            Event::Mouse { event } => EventType::Mouse(event.event_type()),
            Event::Window { event } => EventType::Window(event.event_type()),
            Event::Lifecycle { event } => EventType::Lifecycle(event.event_type()),
            Event::AppCloseRequest => EventType::AppCloseRequest,
            Event::CancelAppCloseRequest => EventType::CancelAppCloseRequest,
            Event::Quit => EventType::Quit,
        }
    }

    /// Returns the family of this event.
    pub fn get_kind(&self) -> (r: EventKind)
        ensures
            r == spec_kind_of_type(spec_event_type(*self)),
    {
        match self {
            Event::Mouse { .. } => EventKind::Mouse,
            Event::Window { .. } => EventKind::Window,
            Event::Lifecycle { .. } => EventKind::Lifecycle,
            Event::AppCloseRequest => EventKind::AppCloseRequest,
            Event::CancelAppCloseRequest => EventKind::CancelAppCloseRequest,
            Event::Quit => EventKind::Quit,
        }
    }
}

} // verus!
