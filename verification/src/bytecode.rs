//! The class-file format: byte cursor and decoder.

pub mod format;
pub mod parser;
pub mod reader;
