//! Events, their managers and the dispatch decisions.
pub mod context;
pub mod dispatch;
pub mod event_manager;
pub mod lifecycle_manager;
pub mod mouse_manager;
pub mod types;
pub mod window_manager;

pub use types::{
    Event, EventKind, EventType, LifecycleEvent, LifecycleEventType, MouseButton, MouseEvent,
    MouseEventType, WindowEvent, WindowEventType,
};
