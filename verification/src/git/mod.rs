//! What concerns git repositories.

pub mod lock;
