//! Terminal multiplexer backends.

pub mod laws;
pub mod operations;
pub mod types;
pub mod zellij;
