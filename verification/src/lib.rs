//! A small retained-mode UI toolkit: a scene of nodes organised as a tree,
//! per-node visual state machines, queued node actions and an event system.
pub mod ids;
pub mod util;
pub mod error;
pub mod event;
pub mod scene;
pub mod resources;
pub mod window;
pub mod laws;
pub mod render;
pub mod math;
pub mod message;
pub mod run_loop;
