//! Hexadecimal output.

pub mod dump;

pub use dump::Dump;
