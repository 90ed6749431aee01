//! The state machines of a session.

pub mod agent;
pub mod clipboard;
pub mod clipboard_run;
pub mod coalesce;
pub mod controller;
pub mod controller_run;
pub mod delivery;
pub mod grouping;
pub mod laws;
pub mod roster;
pub mod routing;
