//! The instruction decoder and the interpreter.

pub mod instructions;
pub mod interpreter;
pub mod machine;
