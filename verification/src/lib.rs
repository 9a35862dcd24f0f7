//! A two-stage toolchain for a simple 16-bit computer: an assembler that turns
//! symbolic machine language into binary instruction words, and a translator
//! that expands stack-machine commands into that symbolic machine language.

pub mod assembler;
pub mod text;
pub mod translator;
