//! Tevir: sharing one keyboard and pointer between trusted desktops.
//!
//! The library holds the decisions of the program: topology routing, the
//! controller, agent and clipboard state machines, wire framing, pairing,
//! discovery records, configuration rules and the state behind the desktop
//! window. Files, sockets and native input backends belong to the program
//! around it.

pub mod config;
pub mod desktop;
pub mod digest;
pub mod discovery;
pub mod domain;
pub mod editor;
pub mod encoding;
pub mod identity;
pub mod numerals;
pub mod platform;
pub mod protocol;
pub mod runtime;
pub mod saturating;
pub mod session;
pub mod telemetry;
pub mod text;
pub mod time;
pub mod transport;
pub mod window;
