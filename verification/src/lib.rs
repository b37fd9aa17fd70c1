//! FMPL core library: the value model, byte encoders, persistence
//! envelopes, trampolined computations, tuple spaces, grammars and their
//! inputs, patterns, instruction type inference, stream metadata, the bytecode header, the decisions of the
//! built-ins and of the interactive prompt.

pub mod bytes;
pub mod error;
pub mod value;
pub mod debug_text;
pub mod persistence;
pub mod compute;
pub mod tuplespace;
pub mod grammar;
pub mod bytecode;
pub mod pattern;
pub mod stream;
pub mod builtins;
pub mod repl;
pub mod compiler;
pub mod cross_compile;
