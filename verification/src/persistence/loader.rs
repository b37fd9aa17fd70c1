//! Envelope-aware decoding of persisted records.
//!
//! Each stored value is routed to exactly one outcome: loaded, skipped as
//! incompatible (unknown envelope format, VM major mismatch), skipped as an
//! unknown kind (nonzero reserved flags, unknown payload kind, unknown schema
//! version) or skipped as corrupt (too short, bad magic, payload length
//! mismatch, checksum mismatch). The checks run in that order.

use crate::persistence::checksum::checksum_spec;
use crate::persistence::envelope::{
    expected_crc, field, header_bytes, lemma_header_fields, lemma_zero_crc_bytes, magic_seq, zero_crc,
    EnvelopeHeader,
    ENVELOPE_HEADER_SIZE,
};
use crate::persistence::schema::{
    kind_byte, kind_of_byte, schema_version_of, PayloadKind, ENVELOPE_FORMAT_VERSION,
    VM_VERSION_MAJOR,
};
use vstd::prelude::*;

verus! {

/// Result of decoding one stored value.
#[derive(Debug, Clone, Copy, PartialEq, Eq, Structural)]
pub enum DecodeOutcome {
    /// The record loaded cleanly.
    Loaded,
    /// VM-major mismatch or unrecognized envelope format version.
    SkippedIncompatible(IncompatibilityReason),
    /// Unknown payload kind, unknown schema version, or nonzero flags.
    SkippedUnknownKind(UnknownKindReason),
    /// Value too short, bad magic, length mismatch or checksum mismatch.
    SkippedCorrupt(CorruptionReason),
}

#[derive(Debug, Clone, Copy, PartialEq, Eq, Structural)]
pub enum IncompatibilityReason {
    /// The stored VM major version differs from this build's.
    VmMajorMismatch,
    /// The stored envelope format version is not the current one.
    UnknownEnvelopeFormat,
}

#[derive(Debug, Clone, Copy, PartialEq, Eq, Structural)]
pub enum UnknownKindReason {
    /// The payload-kind byte names no known kind.
    UnknownPayloadKind,
    /// The schema version is not the current one for the kind.
    UnknownSchemaVersion,
    /// The reserved flags byte is nonzero.
    NonzeroReservedFlags,
}

#[derive(Debug, Clone, Copy, PartialEq, Eq, Structural)]
pub enum CorruptionReason {
    /// The value is shorter than the header.
    ValueTooShort,
    /// The magic bytes are not `b"FMPL"`.
    BadMagic,
    /// The stored payload length differs from the bytes that follow the header.
    PayloadLengthMismatch,
    /// The stored checksum does not match the recomputed one.
    ChecksumMismatch,
}

/// The header bytes of `v` with the checksum field zeroed.
pub open spec fn header_no_crc(v: Seq<u8>) -> Seq<u8> {
    v.subrange(0, 20) + seq![0u8, 0u8, 0u8, 0u8] + v.subrange(24, 56)
}

/// The outcome of decoding the stored value `v`.
pub open spec fn decode_outcome(v: Seq<u8>) -> DecodeOutcome {
    if v.len() < 56 {
        DecodeOutcome::SkippedCorrupt(CorruptionReason::ValueTooShort)
    } else if v.subrange(0, 4) != magic_seq() {
        DecodeOutcome::SkippedCorrupt(CorruptionReason::BadMagic)
    } else if field(v, 4, 2) != ENVELOPE_FORMAT_VERSION {
        DecodeOutcome::SkippedIncompatible(IncompatibilityReason::UnknownEnvelopeFormat)
    } else if field(v, 6, 2) != VM_VERSION_MAJOR {
        DecodeOutcome::SkippedIncompatible(IncompatibilityReason::VmMajorMismatch)
    } else if v[13] != 0 {
        DecodeOutcome::SkippedUnknownKind(UnknownKindReason::NonzeroReservedFlags)
    } else if kind_of_byte(v[12]) is None {
        DecodeOutcome::SkippedUnknownKind(UnknownKindReason::UnknownPayloadKind)
    } else if field(v, 14, 2) != schema_version_of(kind_of_byte(v[12])->0) {
        DecodeOutcome::SkippedUnknownKind(UnknownKindReason::UnknownSchemaVersion)
    } else if field(v, 16, 4) != v.len() - 56 {
        DecodeOutcome::SkippedCorrupt(CorruptionReason::PayloadLengthMismatch)
    } else if field(v, 20, 4) != checksum_spec(header_no_crc(v), v.skip(56)) {
        DecodeOutcome::SkippedCorrupt(CorruptionReason::ChecksumMismatch)
    } else {
        DecodeOutcome::Loaded
    }
}

/// Header and payload of a successfully decoded record.
#[derive(Debug)]
pub struct DecodedRecord<'v> {
    pub header: EnvelopeHeader,
    pub payload: &'v [u8],
    pub kind: PayloadKind,
}

/// Decode a single stored value into its outcome and, when loaded, its
/// header, payload and kind.
pub fn decode<'v>(value: &'v [u8]) -> (r: (DecodeOutcome, Option<DecodedRecord<'v>>))
    ensures
        r.0 == decode_outcome(value@),
        r.1 is Some <==> r.0 == DecodeOutcome::Loaded,
        r.1 matches Some(rec) ==> {
            &&& header_bytes(rec.header) == value@.take(56)
            &&& rec.payload@ == value@.skip(56)
            &&& kind_byte(rec.kind) == value@[12]
        },
{
    if value.len() < ENVELOPE_HEADER_SIZE {
        return (DecodeOutcome::SkippedCorrupt(CorruptionReason::ValueTooShort), None);
    }
    let header = EnvelopeHeader::read(value);
    let payload = &value[ENVELOPE_HEADER_SIZE..value.len()];
    let ghost v = value@;
    proof {
        lemma_header_fields(header);
        assert(header_bytes(header).subrange(0, 4) =~= v.subrange(0, 4));
        assert(header_bytes(header).subrange(4, 6) =~= v.subrange(4, 6));
        assert(header_bytes(header).subrange(6, 8) =~= v.subrange(6, 8));
        assert(header_bytes(header).subrange(14, 16) =~= v.subrange(14, 16));
        assert(header_bytes(header).subrange(16, 20) =~= v.subrange(16, 20));
        assert(header_bytes(header).subrange(20, 24) =~= v.subrange(20, 24));
        assert(header_bytes(header)[12] == v[12]);
        assert(header_bytes(header)[13] == v[13]);
    }
    if !(header.magic[0] == 0x46 && header.magic[1] == 0x4D && header.magic[2] == 0x50
        && header.magic[3] == 0x4C) {
        assert(v.subrange(0, 4) != magic_seq()) by {
            if v.subrange(0, 4) == magic_seq() {
                assert(header.magic@[0] == v.subrange(0, 4)[0]);
                assert(header.magic@[1] == v.subrange(0, 4)[1]);
                assert(header.magic@[2] == v.subrange(0, 4)[2]);
                assert(header.magic@[3] == v.subrange(0, 4)[3]);
            }
        }
        return (DecodeOutcome::SkippedCorrupt(CorruptionReason::BadMagic), None);
    }
    assert(v.subrange(0, 4) =~= magic_seq());
    if header.envelope_format_version != ENVELOPE_FORMAT_VERSION {
        return (
            DecodeOutcome::SkippedIncompatible(IncompatibilityReason::UnknownEnvelopeFormat),
            None,
        );
    }
    if header.vm_version_major != VM_VERSION_MAJOR {
        return (DecodeOutcome::SkippedIncompatible(IncompatibilityReason::VmMajorMismatch), None);
    }
    if header.flags != 0 {
        return (DecodeOutcome::SkippedUnknownKind(UnknownKindReason::NonzeroReservedFlags), None);
    }
    let kind = match PayloadKind::from_byte(header.payload_kind) {
        Some(k) => k,
        None => {
            return (
                DecodeOutcome::SkippedUnknownKind(UnknownKindReason::UnknownPayloadKind),
                None,
            );
        },
    };
    if header.schema_version != kind.current_schema_version() {
        return (DecodeOutcome::SkippedUnknownKind(UnknownKindReason::UnknownSchemaVersion), None);
    }
    if header.payload_len as usize != payload.len() {
        return (DecodeOutcome::SkippedCorrupt(CorruptionReason::PayloadLengthMismatch), None);
    }
    proof {
        lemma_zero_crc_bytes(header);
        assert(header_bytes(header).subrange(0, 20) =~= v.subrange(0, 20));
        assert(header_bytes(header).subrange(24, 56) =~= v.subrange(24, 56));
        assert(header_bytes(zero_crc(header)) =~= header_no_crc(v));
    }
    if !header.verify_checksum(payload) {
        return (DecodeOutcome::SkippedCorrupt(CorruptionReason::ChecksumMismatch), None);
    }
    (DecodeOutcome::Loaded, Some(DecodedRecord { header, payload, kind }))
}

/// A record whose header was built for the current VM with the payload's
/// kind, length and checksum decodes as loaded, giving back the header and
/// the payload.
pub proof fn lemma_encoded_record_loads(h: EnvelopeHeader, kind: PayloadKind, payload: Seq<u8>)
    requires
        h.magic@ == magic_seq(),
        h.envelope_format_version == ENVELOPE_FORMAT_VERSION,
        h.vm_version_major == VM_VERSION_MAJOR,
        h.flags == 0,
        h.payload_kind == kind_byte(kind),
        h.schema_version == schema_version_of(kind),
        h.payload_len == payload.len(),
        h.crc32 == expected_crc(h, payload),
    ensures
        decode_outcome(header_bytes(h) + payload) == DecodeOutcome::Loaded,
        (header_bytes(h) + payload).take(56) == header_bytes(h),
        (header_bytes(h) + payload).skip(56) == payload,
{
    let v = header_bytes(h) + payload;
    lemma_header_fields(h);
    lemma_header_fields(zero_crc(h));
    crate::persistence::schema::lemma_kind_byte_injective(kind);
    assert(v.subrange(0, 4) =~= header_bytes(h).subrange(0, 4));
    assert(v.subrange(4, 6) =~= header_bytes(h).subrange(4, 6));
    assert(v.subrange(6, 8) =~= header_bytes(h).subrange(6, 8));
    assert(v.subrange(14, 16) =~= header_bytes(h).subrange(14, 16));
    assert(v.subrange(16, 20) =~= header_bytes(h).subrange(16, 20));
    assert(v.subrange(20, 24) =~= header_bytes(h).subrange(20, 24));
    assert(v.skip(56) =~= payload);
    assert(v.take(56) =~= header_bytes(h));
    lemma_zero_crc_bytes(h);
    assert(v.subrange(0, 20) =~= header_bytes(h).subrange(0, 20));
    assert(v.subrange(24, 56) =~= header_bytes(h).subrange(24, 56));
    assert(header_no_crc(v) =~= header_bytes(zero_crc(h)));
}

} // verus!
