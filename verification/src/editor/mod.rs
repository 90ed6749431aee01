//! Editing a configuration.

pub mod arranging;
pub mod config_editor;
pub mod geometry;
pub mod laws;
pub mod machines;
pub mod monitors;
pub mod screen;
