//! Text: characters, lines, words and numerals.

pub mod chars;
pub mod decimal;
pub mod laws;
pub mod lines;
pub mod summary;
pub mod words;
