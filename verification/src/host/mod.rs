//! What the tools share: arguments, answers, moments, and the policy.

pub mod answers;
pub mod arguments;
pub mod documents;
pub mod json;
pub mod schema;
pub mod time;
pub mod tool;
