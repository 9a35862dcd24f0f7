//! The stack-machine stage: reads commands such as `push constant 7` or
//! `add` and writes, for each, the symbolic machine language that carries it
//! out.

pub mod command;
pub mod error;
pub mod parser;
pub mod translator;
