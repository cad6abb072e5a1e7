//! The agent's own configuration.

pub mod common;
pub mod requests;
