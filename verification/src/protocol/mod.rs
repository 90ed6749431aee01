//! The versioned wire contract between nodes.

pub mod clipboard;
pub mod codec;
pub mod laws;
pub mod message;
