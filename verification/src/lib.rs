//! An interpreting virtual machine for Java class files: a class-file
//! decoder, a constant-pool resolver, a heap with string interning, frames,
//! a bytecode dispatcher and a mark-sweep collector.

pub mod bytecode;
pub mod exec;
pub mod loader;
pub mod native;
pub mod runtime;
pub mod text;
