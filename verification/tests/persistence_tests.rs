use fmpl_core::persistence::checksum::compute;
use fmpl_core::persistence::envelope::{EnvelopeHeader, ENVELOPE_HEADER_SIZE, NO_SOURCE_HASH};
use fmpl_core::persistence::loader::{
    decode, CorruptionReason, DecodeOutcome, IncompatibilityReason, UnknownKindReason,
};
use fmpl_core::persistence::schema::{
    parse_version_part, PayloadKind, VM_VERSION_MAJOR, VM_VERSION_MINOR, VM_VERSION_PATCH,
};

fn build_record(kind: PayloadKind, payload: &[u8]) -> Vec<u8> {
    let hdr = EnvelopeHeader::new_for_current_vm(kind, payload.len() as u32, NO_SOURCE_HASH)
        .finalize_checksum(payload);
    let mut out = Vec::with_capacity(ENVELOPE_HEADER_SIZE + payload.len());
    out.extend_from_slice(&hdr.as_bytes());
    out.extend_from_slice(payload);
    out
}

fn record_with(hdr: EnvelopeHeader, payload: &[u8]) -> Vec<u8> {
    let hdr = hdr.finalize_checksum(payload);
    let mut value = Vec::new();
    value.extend_from_slice(&hdr.as_bytes());
    value.extend_from_slice(payload);
    value
}

#[test]
fn well_formed_record_loads() {
    let payload = b"hello payload";
    let value = build_record(PayloadKind::CompiledCode, payload);
    let (outcome, decoded) = decode(&value);
    assert_eq!(outcome, DecodeOutcome::Loaded);
    let rec = decoded.expect("loaded record should yield a DecodedRecord");
    assert_eq!(rec.kind, PayloadKind::CompiledCode);
    assert_eq!(rec.payload, payload);
}

#[test]
fn short_value_skipped_corrupt() {
    let value = vec![0u8; 10];
    let (outcome, decoded) = decode(&value);
    assert_eq!(outcome, DecodeOutcome::SkippedCorrupt(CorruptionReason::ValueTooShort));
    assert!(decoded.is_none());
}

#[test]
fn bad_magic_skipped_corrupt() {
    let payload = b"x";
    let mut value = build_record(PayloadKind::ObjectIndex, payload);
    value[0] = b'X';
    let (outcome, _) = decode(&value);
    assert_eq!(outcome, DecodeOutcome::SkippedCorrupt(CorruptionReason::BadMagic));
}

#[test]
fn vm_major_mismatch_skipped_incompatible() {
    let payload = b"x";
    let mut hdr = EnvelopeHeader::new_for_current_vm(PayloadKind::CompiledCode, payload.len() as u32, NO_SOURCE_HASH);
    hdr.vm_version_major = VM_VERSION_MAJOR.wrapping_add(1);
    let (outcome, _) = decode(&record_with(hdr, payload));
    assert_eq!(outcome, DecodeOutcome::SkippedIncompatible(IncompatibilityReason::VmMajorMismatch));
}

#[test]
fn unknown_envelope_format_skipped_incompatible() {
    let payload = b"x";
    let mut hdr = EnvelopeHeader::new_for_current_vm(PayloadKind::CompiledCode, payload.len() as u32, NO_SOURCE_HASH);
    hdr.envelope_format_version = 0xFFFF;
    let (outcome, _) = decode(&record_with(hdr, payload));
    assert_eq!(outcome, DecodeOutcome::SkippedIncompatible(IncompatibilityReason::UnknownEnvelopeFormat));
}

#[test]
fn unknown_payload_kind_skipped_unknown_kind() {
    let payload = b"x";
    let mut hdr = EnvelopeHeader::new_for_current_vm(PayloadKind::CompiledCode, payload.len() as u32, NO_SOURCE_HASH);
    hdr.payload_kind = 0xEE;
    let (outcome, _) = decode(&record_with(hdr, payload));
    assert_eq!(outcome, DecodeOutcome::SkippedUnknownKind(UnknownKindReason::UnknownPayloadKind));
}

#[test]
fn unknown_schema_version_skipped_unknown_kind() {
    let payload = b"x";
    let mut hdr = EnvelopeHeader::new_for_current_vm(PayloadKind::CompiledCode, payload.len() as u32, NO_SOURCE_HASH);
    hdr.schema_version = 0xFFFF;
    let (outcome, _) = decode(&record_with(hdr, payload));
    assert_eq!(outcome, DecodeOutcome::SkippedUnknownKind(UnknownKindReason::UnknownSchemaVersion));
}

#[test]
fn nonzero_flags_skipped_unknown_kind() {
    let payload = b"x";
    let mut hdr = EnvelopeHeader::new_for_current_vm(PayloadKind::CompiledCode, payload.len() as u32, NO_SOURCE_HASH);
    hdr.flags = 0x01;
    let (outcome, _) = decode(&record_with(hdr, payload));
    assert_eq!(outcome, DecodeOutcome::SkippedUnknownKind(UnknownKindReason::NonzeroReservedFlags));
}

#[test]
fn checksum_mismatch_skipped_corrupt() {
    let payload = b"x";
    let mut value = build_record(PayloadKind::CompiledCode, payload);
    let last = value.len() - 1;
    value[last] ^= 0xFF;
    let (outcome, _) = decode(&value);
    assert_eq!(outcome, DecodeOutcome::SkippedCorrupt(CorruptionReason::ChecksumMismatch));
}

#[test]
fn payload_length_mismatch_skipped_corrupt() {
    let payload = b"hello payload";
    let mut value = build_record(PayloadKind::CompiledCode, payload);
    value.pop();
    let (outcome, _) = decode(&value);
    assert_eq!(outcome, DecodeOutcome::SkippedCorrupt(CorruptionReason::PayloadLengthMismatch));
}

#[test]
fn header_layout_and_read_roundtrip() {
    let mut hdr = EnvelopeHeader::new_for_current_vm(PayloadKind::Grammar, 0x01020304, NO_SOURCE_HASH);
    hdr.source_hash[31] = 0xAB;
    let bytes = hdr.as_bytes();
    assert_eq!(bytes.len(), ENVELOPE_HEADER_SIZE);
    assert_eq!(&bytes[0..4], b"FMPL");
    assert_eq!(bytes[12], 0x04);
    assert_eq!(&bytes[16..20], &[0x04, 0x03, 0x02, 0x01]);
    assert_eq!(bytes[55], 0xAB);
    let back = EnvelopeHeader::read(&bytes);
    assert_eq!(back.as_bytes(), bytes);
    assert_eq!(back.payload_len, 0x01020304);
}

#[test]
fn checksum_is_stamped_and_verified() {
    let payload = b"abc";
    let hdr = EnvelopeHeader::new_for_current_vm(PayloadKind::MemoTable, 3, NO_SOURCE_HASH).finalize_checksum(payload);
    assert!(hdr.verify_checksum(payload));
    assert!(!hdr.verify_checksum(b"abd"));
    let mut zeroed = hdr;
    zeroed.crc32 = 0;
    assert_eq!(hdr.crc32, compute(&zeroed.as_bytes(), payload));
}

#[test]
fn deterministic_over_same_inputs() {
    let h = b"header data here padded out";
    let p = b"payload bytes";
    assert_eq!(compute(h, p), compute(h, p));
}

#[test]
fn changes_when_header_changes() {
    let h1 = b"header data here padded out";
    let h2 = b"header data here padded OUT";
    let p = b"payload bytes";
    assert_ne!(compute(h1, p), compute(h2, p));
}

#[test]
fn changes_when_payload_changes() {
    let h = b"header data here padded out";
    let p1 = b"payload bytes";
    let p2 = b"payload Bytes";
    assert_ne!(compute(h, p1), compute(h, p2));
}

#[test]
fn header_payload_concatenation_matters() {
    let a = [1u8, 2, 3];
    let b = [4u8, 5, 6];
    let c = [7u8, 8, 9];
    let ab: Vec<u8> = a.iter().chain(b.iter()).copied().collect();
    let bc: Vec<u8> = b.iter().chain(c.iter()).copied().collect();
    assert_eq!(compute(&ab, &c), compute(&a, &bc));
}

#[test]
fn checksum_is_low_word_of_blake3() {
    let digest = blake3::hash(b"headerpayload");
    let b = digest.as_bytes();
    assert_eq!(compute(b"header", b"payload"), u32::from_le_bytes([b[0], b[1], b[2], b[3]]));
}

#[test]
fn version_parsing_handles_standard_semver() {
    assert_eq!(parse_version_part("1.2.3", 0), 1);
    assert_eq!(parse_version_part("1.2.3", 1), 2);
    assert_eq!(parse_version_part("1.2.3", 2), 3);
}

#[test]
fn version_parsing_handles_zero_minor_patch() {
    assert_eq!(parse_version_part("0.3.0", 0), 0);
    assert_eq!(parse_version_part("0.3.0", 1), 3);
    assert_eq!(parse_version_part("0.3.0", 2), 0);
}

#[test]
fn version_parsing_handles_pre_release_markers() {
    assert_eq!(parse_version_part("1.2.3-rc.1", 0), 1);
    assert_eq!(parse_version_part("1.2.3-rc.1", 1), 2);
    assert_eq!(parse_version_part("1.2.3-rc.1", 2), 3);
}

#[test]
fn version_parsing_handles_missing_parts() {
    assert_eq!(parse_version_part("1.2", 0), 1);
    assert_eq!(parse_version_part("1.2", 1), 2);
    assert_eq!(parse_version_part("1.2", 2), 0);
}

#[test]
fn version_parsing_edge_cases() {
    assert_eq!(parse_version_part("12.345.6789", 2), 6789);
    assert_eq!(parse_version_part("1..3", 1), 0);
    assert_eq!(parse_version_part("", 0), 0);
    assert_eq!(parse_version_part("x1.2", 0), 0);
    assert_eq!(parse_version_part("70000.1", 0), (70000u32 % 65536) as u16);
}

const ALL_KINDS: [PayloadKind; 9] = [
    PayloadKind::ObjectRecord,
    PayloadKind::ObjectIndex,
    PayloadKind::CompiledCode,
    PayloadKind::Grammar,
    PayloadKind::GrammarRegistry,
    PayloadKind::ParseState,
    PayloadKind::MemoTable,
    PayloadKind::VmSnapshot,
    PayloadKind::StreamPosition,
];

#[test]
fn payload_kind_roundtrips_through_wire_byte() {
    for kind in ALL_KINDS {
        assert_eq!(PayloadKind::from_byte(kind.as_byte()), Some(kind));
    }
}

#[test]
fn unknown_payload_byte_returns_none() {
    for b in [0x00, 0x0A, 0x10, 0x42, 0xFF] {
        assert!(PayloadKind::from_byte(b).is_none(), "byte {b:#x} should be unknown");
    }
}

#[test]
fn current_schema_version_is_one_for_every_kind() {
    for kind in ALL_KINDS {
        assert_eq!(kind.current_schema_version(), 1);
    }
}

#[test]
fn vm_version_constants_are_derived_from_cargo_pkg_version() {
    let _ = VM_VERSION_MAJOR;
    let _ = VM_VERSION_MINOR;
    let _ = VM_VERSION_PATCH;
    assert_eq!(parse_version_part("0.1.0", 0), VM_VERSION_MAJOR);
    assert_eq!(parse_version_part("0.1.0", 1), VM_VERSION_MINOR);
    assert_eq!(parse_version_part("0.1.0", 2), VM_VERSION_PATCH);
}
