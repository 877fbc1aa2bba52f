//! Values, objects and the heap; frames and the call stack; the collector.

pub mod frame;
pub mod gc;
pub mod heap;
pub mod numeric;
pub mod stack;
pub mod string_map;
