//! The tools that the assistant works with.

pub mod memes;
pub mod memory;
pub mod memory_tools;
