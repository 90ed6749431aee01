//! Authenticated connections between nodes.

pub mod config;
pub mod frame;
pub mod handshake;
pub mod laws;
pub mod replay;
