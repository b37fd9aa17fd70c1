use vstd::prelude::*;

verus! {

/// Error type shared by the library's fallible operations.
#[derive(Debug)]
pub enum Error {
    /// A runtime failure with a human-readable message.
    Runtime(String),
}

/// Result type of the library's fallible operations.
pub type Result<T> = core::result::Result<T, Error>;

} // verus!
