//! Child agents that work on their own, and the tool that sets them to work.

pub mod agents;
pub mod artifacts;
pub mod call_laws;
pub mod documents;
pub mod laws;
pub mod registry;
pub mod schema;
pub mod session;
pub mod tool;
