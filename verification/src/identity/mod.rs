//! Identities of nodes and the trust between them.

pub mod laws;
pub mod pairing;
pub mod store;
