//! Tools for an agent: applying patches, running processes in the background,
//! and delegating work to child agents.
//!
//! What a tool decides is here, and is verified. What it needs from the world,
//! it asks for: a call is a machine that names the next request, and goes on
//! with the reply.

pub mod apply_patch;
pub mod child_session;
pub mod host;
pub mod process;
pub mod process_sessions;
pub mod text;
