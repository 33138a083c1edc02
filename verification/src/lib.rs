//! Verified core of a terminal multiplexer backend for Zellij.

pub mod git;
pub mod multiplexer;
pub mod plan;
pub mod shell;
pub mod text;
