//! What a running session does.

pub mod activation;
pub mod agent;
pub mod applications;
pub mod clipboards;
pub mod controller;
pub mod crossings;
pub mod effect;
pub mod event;
pub mod hosting;
pub mod laws;
pub mod native;
pub mod peers;
pub mod serving;
