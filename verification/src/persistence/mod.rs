//! Image persistence: the envelope wire format that wraps every persisted
//! record, its checksum, the schema registry, and the loader that routes
//! each stored value to "loaded" or one of the skip outcomes.

pub mod checksum;
pub mod envelope;
pub mod loader;
pub mod schema;
