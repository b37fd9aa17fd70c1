//! Serialized bytecode.

pub mod format;
