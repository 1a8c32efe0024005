//! The tool that runs processes in the background.

pub mod call_laws;
pub mod documents;
pub mod environment;
pub mod environment_laws;
pub mod laws;
pub mod protocol;
pub mod schema;
pub mod tool;
