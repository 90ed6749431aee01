//! What the desktop window shows and decides.

pub mod decisions;
pub mod labels;
pub mod laws;
pub mod machine;
pub mod model;
pub mod notice;
pub mod pairing;
pub mod rows;
pub mod status;
