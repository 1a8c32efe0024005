//! Structured patches: their grammar, their effect on a text, and the order in
//! which a patch is checked and carried out.

pub mod document;
pub mod effects;
pub mod errors;
pub mod execution;
pub mod faults;
pub mod grammar;
pub mod grounds;
pub mod hunk_laws;
pub mod hunks;
pub mod laws;
pub mod parse;
pub mod protocol;
pub mod reading;
pub mod reading_all;
pub mod reversal;
pub mod round_trip;
pub mod safety;
pub mod targets;
pub mod tool;
