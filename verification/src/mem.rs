//! Readers over memory.

pub mod loop_reader;

pub use loop_reader::LoopReader;
