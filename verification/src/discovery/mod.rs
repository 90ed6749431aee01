//! Finding nodes on the local network.

pub mod address;
pub mod laws;
pub mod nearby;
pub mod record;
