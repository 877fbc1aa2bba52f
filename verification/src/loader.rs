//! Constant-pool lookups and the class loader.

pub mod class_loader;
pub mod constant_pool;
