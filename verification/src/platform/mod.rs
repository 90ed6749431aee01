//! The rules of the native input and clipboard services.

pub mod capture;
pub mod clipboard;
pub mod convert;
pub mod geometry;
pub mod injection;
pub mod laws;
pub mod portal;
pub mod report;
pub mod service;
pub mod state;
pub mod surroundings;
