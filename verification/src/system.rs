//! Byte strings and ordered maps built on the crate's containers.
pub mod strings;
pub mod map;
