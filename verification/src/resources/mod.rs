//! Fonts, images and the managers that hold them.
pub mod font;
pub mod resource;
pub mod resource_manager;
