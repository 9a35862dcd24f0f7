//! Characters, searches, words and decimal numbers that both stages build
//! on. Every string is reasoned about as its sequence of characters.

pub mod chars;
pub mod decimal;
pub mod search;
pub mod words;
