//! The bytecode file format: a little-endian `u16` format version.

use vstd::prelude::*;
use crate::bytes::{le_bytes, le_encode, le_read, le_value, lemma_le_roundtrip, pow256};
use crate::compiler::Instruction;
use crate::error::{Error, Result};

verus! {

broadcast use vstd::string::group_string_axioms;

/// The version written at the start of encoded bytecode.
pub const BYTECODE_VERSION: u16 = 1;

/// Compiled code: the instruction stream a program compiles to.
#[derive(Debug)]
pub struct CompiledCode {
    /// The instructions.
    pub instructions: Vec<Instruction>,
}

impl CompiledCode {
    /// Code with no instructions.
    pub fn new() -> (r: CompiledCode)
        ensures
            r.instructions@.len() == 0,
    {
        CompiledCode { instructions: Vec::new() }
    }
}

/// The bytes of encoded bytecode: the format version, little-endian.
pub open spec fn encoded_bytecode() -> Seq<u8> {
    le_bytes(BYTECODE_VERSION as nat, 2)
}

/// The version a byte sequence of at least two bytes announces.
pub open spec fn announced_version(bytes: Seq<u8>) -> nat {
    le_value(bytes.subrange(0, 2))
}

/// Encode compiled code.
pub fn encode_bytecode(code: &CompiledCode) -> (r: Result<Vec<u8>>)
    ensures
        r matches Ok(bytes) && bytes@ == encoded_bytecode(),
{
    let bytes = le_encode(BYTECODE_VERSION as u64, 2);
    Ok(bytes)
}

/// Decode bytecode: an error when it is shorter than the version field or
/// announces another version.
pub fn decode_bytecode(bytes: &[u8]) -> (r: Result<CompiledCode>)
    ensures
        bytes@.len() < 2 ==> (r matches Err(Error::Runtime(m)) && m@ == "bytecode too short"@),
        bytes@.len() >= 2 && announced_version(bytes@) != BYTECODE_VERSION ==> (r matches Err(
            Error::Runtime(m),
        ) && m@ == "bytecode version mismatch"@),
        bytes@.len() >= 2 && announced_version(bytes@) == BYTECODE_VERSION ==> (r matches Ok(code)
            && code.instructions@.len() == 0),
{
    if bytes.len() < 2 {
        return Err(Error::Runtime("bytecode too short".to_string()));
    }
    let version = le_read(bytes, 0, 2);
    if version != BYTECODE_VERSION as u64 {
        return Err(Error::Runtime("bytecode version mismatch".to_string()));
    }
    Ok(CompiledCode::new())
}

/// Encoded bytecode decodes: it is long enough and announces the current
/// version.
pub proof fn lemma_encoded_bytecode_decodes()
    ensures
        encoded_bytecode().len() == 2,
        announced_version(encoded_bytecode()) == BYTECODE_VERSION,
{
    assert(pow256(2) == 65536) by {
        reveal_with_fuel(pow256, 3);
    }
    lemma_le_roundtrip(BYTECODE_VERSION as nat, 2);
    assert(encoded_bytecode().subrange(0, 2) =~= encoded_bytecode());
}

} // verus!
