//! The assembler: reads symbolic machine language line by line, gives every
//! label and variable an address, and writes one 16-bit word, as sixteen
//! characters `0` or `1`, for each instruction.

pub mod assembler;
pub mod code;
pub mod error;
pub mod laws;
pub mod parser;
pub mod symbols;
