//! The RANDOM mining routes.

pub mod random;
