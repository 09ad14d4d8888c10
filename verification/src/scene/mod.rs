//! Nodes, their components and the scene that owns them.
pub mod tree;
pub mod visual;
pub mod action;
pub mod queue;
pub mod state;
pub mod text;
pub mod family;
pub mod storage;
pub mod style_view;
pub mod node_view;
pub mod scene;
pub mod components;
pub mod node_style;
pub mod handlers;
pub mod action_state;
