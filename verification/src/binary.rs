//! Integers in byte slices.

pub mod big_endian;

pub use big_endian::{BigEndian, BigEndianValue};
