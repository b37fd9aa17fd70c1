//! The fixed-layout envelope header that prefixes every persisted record.
//!
//! Layout (56 bytes, integers little-endian):
//!
//! | offset | size | field                     |
//! |--------|------|---------------------------|
//! | 0      | 4    | magic `b"FMPL"`           |
//! | 4      | 2    | envelope format version   |
//! | 6      | 2    | VM major version          |
//! | 8      | 2    | VM minor version          |
//! | 10     | 2    | VM patch version          |
//! | 12     | 1    | payload kind              |
//! | 13     | 1    | flags (reserved, zero)    |
//! | 14     | 2    | payload schema version    |
//! | 16     | 4    | payload length            |
//! | 20     | 4    | checksum                  |
//! | 24     | 32   | source hash               |

use crate::bytes::{
    le_bytes, le_encode, le_read, le_value, lemma_le_bytes_len, lemma_le_value_bytes, lemma_pow256_8,
};
use crate::persistence::checksum::{checksum_spec, compute};
use crate::persistence::schema::{
    kind_byte, schema_version_of, PayloadKind, ENVELOPE_FORMAT_VERSION, VM_VERSION_MAJOR,
    VM_VERSION_MINOR, VM_VERSION_PATCH,
};
use vstd::prelude::*;

verus! {

broadcast use vstd::array::group_array_axioms;

/// Size of the envelope header in bytes.
pub const ENVELOPE_HEADER_SIZE: usize = 56;

/// The magic bytes `b"FMPL"` that open every envelope.
pub const MAGIC: [u8; 4] = [0x46, 0x4D, 0x50, 0x4C];

/// Source hash of a record that has no source.
pub const NO_SOURCE_HASH: [u8; 32] = [
    0, 0, 0, 0, 0, 0, 0, 0, 0, 0, 0, 0, 0, 0, 0, 0, 0, 0, 0, 0, 0, 0, 0, 0, 0, 0, 0, 0, 0, 0, 0, 0,
];

/// The magic bytes as a sequence.
pub open spec fn magic_seq() -> Seq<u8> {
    seq![0x46u8, 0x4Du8, 0x50u8, 0x4Cu8]
}

/// The envelope header.
#[derive(Debug, Clone, Copy)]
pub struct EnvelopeHeader {
    pub magic: [u8; 4],
    pub envelope_format_version: u16,
    pub vm_version_major: u16,
    pub vm_version_minor: u16,
    pub vm_version_patch: u16,
    pub payload_kind: u8,
    pub flags: u8,
    pub schema_version: u16,
    pub payload_len: u32,
    pub crc32: u32,
    pub source_hash: [u8; 32],
}

/// The wire bytes of a header.
pub open spec fn header_bytes(h: EnvelopeHeader) -> Seq<u8> {
    h.magic@ + le_bytes(h.envelope_format_version as nat, 2) + le_bytes(h.vm_version_major as nat, 2)
        + le_bytes(h.vm_version_minor as nat, 2) + le_bytes(h.vm_version_patch as nat, 2) + seq![
        h.payload_kind,
        h.flags,
    ] + le_bytes(h.schema_version as nat, 2) + le_bytes(h.payload_len as nat, 4) + le_bytes(
        h.crc32 as nat,
        4,
    ) + h.source_hash@
}

/// The same header with its checksum field zeroed.
pub open spec fn zero_crc(h: EnvelopeHeader) -> EnvelopeHeader {
    EnvelopeHeader { crc32: 0, ..h }
}

/// The little-endian number stored in `v[off..off + k]`.
pub open spec fn field(v: Seq<u8>, off: int, k: int) -> nat {
    le_value(v.subrange(off, off + k))
}

/// The checksum a header must carry for `payload`.
pub open spec fn expected_crc(h: EnvelopeHeader, payload: Seq<u8>) -> u32 {
    checksum_spec(header_bytes(zero_crc(h)), payload)
}

/// Appends `src` to `out`.
fn extend(out: &mut Vec<u8>, src: &[u8])
    ensures
        final(out)@ == old(out)@ + src@,
{
    let ghost start = out@;
    let mut i: usize = 0;
    while i < src.len()
        invariant
            i <= src@.len(),
            out@ == start + src@.take(i as int),
        decreases src@.len() - i,
    {
        out.push(src[i]);
        i += 1;
        assert(out@ =~= start + src@.take(i as int));
    }
    assert(src@.take(src@.len() as int) =~= src@);
}

proof fn lemma_header_len(h: EnvelopeHeader)
    ensures
        header_bytes(h).len() == 56,
        h.magic@.len() == 4,
        h.source_hash@.len() == 32,
        le_bytes(h.envelope_format_version as nat, 2).len() == 2,
        le_bytes(h.vm_version_major as nat, 2).len() == 2,
        le_bytes(h.vm_version_minor as nat, 2).len() == 2,
        le_bytes(h.vm_version_patch as nat, 2).len() == 2,
        le_bytes(h.schema_version as nat, 2).len() == 2,
        le_bytes(h.payload_len as nat, 4).len() == 4,
        le_bytes(h.crc32 as nat, 4).len() == 4,
{
    lemma_le_bytes_len(h.envelope_format_version as nat, 2);
    lemma_le_bytes_len(h.vm_version_major as nat, 2);
    lemma_le_bytes_len(h.vm_version_minor as nat, 2);
    lemma_le_bytes_len(h.vm_version_patch as nat, 2);
    lemma_le_bytes_len(h.schema_version as nat, 2);
    lemma_le_bytes_len(h.payload_len as nat, 4);
    lemma_le_bytes_len(h.crc32 as nat, 4);
}

/// Reading the fields back from a header's wire bytes gives the header's
/// fields.
pub proof fn lemma_header_fields(h: EnvelopeHeader)
    ensures
        header_bytes(h).len() == 56,
        header_bytes(h).subrange(0, 4) == h.magic@,
        field(header_bytes(h), 4, 2) == h.envelope_format_version,
        field(header_bytes(h), 6, 2) == h.vm_version_major,
        field(header_bytes(h), 8, 2) == h.vm_version_minor,
        field(header_bytes(h), 10, 2) == h.vm_version_patch,
        header_bytes(h)[12] == h.payload_kind,
        header_bytes(h)[13] == h.flags,
        field(header_bytes(h), 14, 2) == h.schema_version,
        field(header_bytes(h), 16, 4) == h.payload_len,
        field(header_bytes(h), 20, 4) == h.crc32,
        header_bytes(h).subrange(24, 56) == h.source_hash@,
{
    lemma_header_len(h);
    lemma_pow256_8();
    crate::bytes::lemma_le_roundtrip(h.envelope_format_version as nat, 2);
    crate::bytes::lemma_le_roundtrip(h.vm_version_major as nat, 2);
    crate::bytes::lemma_le_roundtrip(h.vm_version_minor as nat, 2);
    crate::bytes::lemma_le_roundtrip(h.vm_version_patch as nat, 2);
    crate::bytes::lemma_le_roundtrip(h.schema_version as nat, 2);
    crate::bytes::lemma_le_roundtrip(h.payload_len as nat, 4);
    crate::bytes::lemma_le_roundtrip(h.crc32 as nat, 4);
    let b = header_bytes(h);
    assert(b.subrange(0, 4) =~= h.magic@);
    assert(b.subrange(4, 6) =~= le_bytes(h.envelope_format_version as nat, 2));
    assert(b.subrange(6, 8) =~= le_bytes(h.vm_version_major as nat, 2));
    assert(b.subrange(8, 10) =~= le_bytes(h.vm_version_minor as nat, 2));
    assert(b.subrange(10, 12) =~= le_bytes(h.vm_version_patch as nat, 2));
    assert(b.subrange(14, 16) =~= le_bytes(h.schema_version as nat, 2));
    assert(b.subrange(16, 20) =~= le_bytes(h.payload_len as nat, 4));
    assert(b.subrange(20, 24) =~= le_bytes(h.crc32 as nat, 4));
    assert(b.subrange(24, 56) =~= h.source_hash@);
}

/// Zeroing the checksum field zeroes bytes 20..24 of the wire bytes and
/// leaves the rest alone.
pub proof fn lemma_zero_crc_bytes(h: EnvelopeHeader)
    ensures
        header_bytes(zero_crc(h)) == header_bytes(h).subrange(0, 20) + seq![0u8, 0u8, 0u8, 0u8]
            + header_bytes(h).subrange(24, 56),
{
    lemma_header_len(h);
    lemma_header_len(zero_crc(h));
    let prefix = h.magic@ + le_bytes(h.envelope_format_version as nat, 2) + le_bytes(
        h.vm_version_major as nat,
        2,
    ) + le_bytes(h.vm_version_minor as nat, 2) + le_bytes(h.vm_version_patch as nat, 2) + seq![
        h.payload_kind,
        h.flags,
    ] + le_bytes(h.schema_version as nat, 2) + le_bytes(h.payload_len as nat, 4);
    assert(prefix.len() == 20);
    assert(header_bytes(h) == prefix + le_bytes(h.crc32 as nat, 4) + h.source_hash@);
    assert(header_bytes(zero_crc(h)) == prefix + le_bytes(0, 4) + h.source_hash@);
    reveal_with_fuel(le_bytes, 5);
    assert(le_bytes(0, 4) =~= seq![0u8, 0u8, 0u8, 0u8]);
    assert(header_bytes(h).subrange(0, 20) =~= prefix);
    assert(header_bytes(h).subrange(24, 56) =~= h.source_hash@);
    assert(header_bytes(zero_crc(h)) =~= header_bytes(h).subrange(0, 20) + seq![0u8, 0u8, 0u8, 0u8]
        + header_bytes(h).subrange(24, 56));
}

impl EnvelopeHeader {
    /// A header for a payload of the given kind and length, stamped with this
    /// build's versions, zero flags and a zero checksum.
    pub fn new_for_current_vm(kind: PayloadKind, payload_len: u32, source_hash: [u8; 32]) -> (h: Self)
        ensures
            h.magic@ == magic_seq(),
            h.envelope_format_version == ENVELOPE_FORMAT_VERSION,
            h.vm_version_major == VM_VERSION_MAJOR,
            h.vm_version_minor == VM_VERSION_MINOR,
            h.vm_version_patch == VM_VERSION_PATCH,
            h.payload_kind == kind_byte(kind),
            h.flags == 0,
            h.schema_version == schema_version_of(kind),
            h.payload_len == payload_len,
            h.crc32 == 0,
            h.source_hash == source_hash,
    {
        let h = EnvelopeHeader {
            magic: MAGIC,
            envelope_format_version: ENVELOPE_FORMAT_VERSION,
            vm_version_major: VM_VERSION_MAJOR,
            vm_version_minor: VM_VERSION_MINOR,
            vm_version_patch: VM_VERSION_PATCH,
            payload_kind: kind.as_byte(),
            flags: 0,
            schema_version: kind.current_schema_version(),
            payload_len,
            crc32: 0,
            source_hash,
        };
        assert(h.magic@ =~= magic_seq());
        h
    }

    /// The header's wire bytes.
    pub fn as_bytes(&self) -> (r: Vec<u8>)
        ensures
            r@ == header_bytes(*self),
    {
        let mut out: Vec<u8> = Vec::new();
        extend(&mut out, self.magic.as_slice());
        let v = le_encode(self.envelope_format_version as u64, 2);
        extend(&mut out, v.as_slice());
        let v = le_encode(self.vm_version_major as u64, 2);
        extend(&mut out, v.as_slice());
        let v = le_encode(self.vm_version_minor as u64, 2);
        extend(&mut out, v.as_slice());
        let v = le_encode(self.vm_version_patch as u64, 2);
        extend(&mut out, v.as_slice());
        out.push(self.payload_kind);
        out.push(self.flags);
        let v = le_encode(self.schema_version as u64, 2);
        extend(&mut out, v.as_slice());
        let v = le_encode(self.payload_len as u64, 4);
        extend(&mut out, v.as_slice());
        let v = le_encode(self.crc32 as u64, 4);
        extend(&mut out, v.as_slice());
        extend(&mut out, self.source_hash.as_slice());
        assert(out@ =~= header_bytes(*self));
        out
    }

    /// Reads a header from the first 56 bytes of `value`.
    pub fn read(value: &[u8]) -> (h: Self)
        requires
            value@.len() >= 56,
        ensures
            header_bytes(h) == value@.take(56),
    {
        proof {
            lemma_pow256_8();
            lemma_le_value_bytes(value@.subrange(4, 6));
            lemma_le_value_bytes(value@.subrange(6, 8));
            lemma_le_value_bytes(value@.subrange(8, 10));
            lemma_le_value_bytes(value@.subrange(10, 12));
            lemma_le_value_bytes(value@.subrange(14, 16));
            lemma_le_value_bytes(value@.subrange(16, 20));
            lemma_le_value_bytes(value@.subrange(20, 24));
        }
        let magic = [value[0], value[1], value[2], value[3]];
        let mut source_hash = [0u8; 32];
        let mut i: usize = 0;
        while i < 32
            invariant
                i <= 32,
                value@.len() >= 56,
                source_hash@.len() == 32,
                forall|t: int| 0 <= t < i ==> source_hash@[t] == value@[24 + t],
            decreases 32 - i,
        {
            source_hash[i] = value[24 + i];
            i += 1;
        }
        let h = EnvelopeHeader {
            magic,
            envelope_format_version: le_read(value, 4, 2) as u16,
            vm_version_major: le_read(value, 6, 2) as u16,
            vm_version_minor: le_read(value, 8, 2) as u16,
            vm_version_patch: le_read(value, 10, 2) as u16,
            payload_kind: value[12],
            flags: value[13],
            schema_version: le_read(value, 14, 2) as u16,
            payload_len: le_read(value, 16, 4) as u32,
            crc32: le_read(value, 20, 4) as u32,
            source_hash,
        };
        assert(magic@ =~= value@.subrange(0, 4));
        assert(source_hash@ =~= value@.subrange(24, 56));
        assert(header_bytes(h) =~= value@.take(56));
        h
    }

    /// This header with its checksum stamped for `payload`.
    pub fn finalize_checksum(self, payload: &[u8]) -> (h: Self)
        ensures
            h == (EnvelopeHeader { crc32: expected_crc(self, payload@), ..self }),
    {
        let zeroed = EnvelopeHeader { crc32: 0, ..self };
        let bytes = zeroed.as_bytes();
        let crc = compute(bytes.as_slice(), payload);
        EnvelopeHeader { crc32: crc, ..self }
    }

    /// Whether the stamped checksum matches `payload`.
    pub fn verify_checksum(&self, payload: &[u8]) -> (r: bool)
        ensures
            r == (self.crc32 == expected_crc(*self, payload@)),
    {
        let zeroed = EnvelopeHeader { crc32: 0, ..*self };
        let bytes = zeroed.as_bytes();
        let crc = compute(bytes.as_slice(), payload);
        crc == self.crc32
    }
}

} // verus!
