//! Processes that run in the background: their output, their end, and their
//! registry.

pub mod cleanup;
pub mod cleanup_laws;
pub mod cleanup_steps;
pub mod errors;
pub mod laws;
pub mod output;
pub mod registry;
pub mod registry_laws;
pub mod session;
pub mod shutdown;
pub mod shutdown_laws;
