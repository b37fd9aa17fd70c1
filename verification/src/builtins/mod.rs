//! Built-in objects of the FMPL runtime.

pub mod rand;
pub mod io;
pub mod human;
pub mod curl;
pub mod bridge;
