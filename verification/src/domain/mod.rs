//! Platform-neutral domain types.

pub mod arrangement;
pub mod display;
pub mod geometry;
pub mod host;
pub mod identity;
pub mod input;
pub mod laws;
pub mod node_map;
pub mod nonzero;
pub mod reachability;
pub mod topology;
