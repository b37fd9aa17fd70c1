//! Schema and version registry for the persistence envelope.

use vstd::prelude::*;
use vstd::string::StringSliceAdditionalSpecFns;

verus! {

/// Envelope wire-format version.
pub const ENVELOPE_FORMAT_VERSION: u16 = 1;

/// VM major version of this build.
pub const VM_VERSION_MAJOR: u16 = 0;

/// VM minor version of this build.
pub const VM_VERSION_MINOR: u16 = 1;

/// VM patch version of this build.
pub const VM_VERSION_PATCH: u16 = 0;

/// Envelope payload-kind taxonomy. The wire encoding is one byte.
#[derive(Debug, Clone, Copy, PartialEq, Eq, Hash, Structural)]
pub enum PayloadKind {
    /// Per-object body record.
    ObjectRecord,
    /// The index record listing every object id in the keyspace.
    ObjectIndex,
    /// Bytecode.
    CompiledCode,
    /// Grammar definition.
    Grammar,
    /// Top-level grammar registry.
    GrammarRegistry,
    /// Incremental parse state.
    ParseState,
    /// Grammar memo cache.
    MemoTable,
    /// Full-VM snapshot.
    VmSnapshot,
    /// Stream-position spill record for incremental grammar parsing.
    StreamPosition,
}

/// The wire byte of each payload kind.
pub open spec fn kind_byte(k: PayloadKind) -> u8 {
    match k {
        PayloadKind::ObjectRecord => 0x01,
        PayloadKind::ObjectIndex => 0x02,
        PayloadKind::CompiledCode => 0x03,
        PayloadKind::Grammar => 0x04,
        PayloadKind::GrammarRegistry => 0x05,
        PayloadKind::ParseState => 0x06,
        PayloadKind::MemoTable => 0x07,
        PayloadKind::VmSnapshot => 0x08,
        PayloadKind::StreamPosition => 0x09,
    }
}

/// The payload kind a wire byte denotes, if any.
pub open spec fn kind_of_byte(b: u8) -> Option<PayloadKind> {
    if 0x01 <= b <= 0x09 {
        Some(choose|k: PayloadKind| kind_byte(k) == b)
    } else {
        None
    }
}

/// The current schema version of each payload kind.
pub open spec fn schema_version_of(k: PayloadKind) -> u16 {
    1
}

impl PayloadKind {
    /// Wire byte to kind; `None` for bytes that name no kind.
    pub fn from_byte(b: u8) -> (r: Option<Self>)
        ensures
            r == kind_of_byte(b),
            r matches Some(k) ==> kind_byte(k) == b,
    {
        let r = match b {
            0x01 => Some(Self::ObjectRecord),
            0x02 => Some(Self::ObjectIndex),
            0x03 => Some(Self::CompiledCode),
            0x04 => Some(Self::Grammar),
            0x05 => Some(Self::GrammarRegistry),
            0x06 => Some(Self::ParseState),
            0x07 => Some(Self::MemoTable),
            0x08 => Some(Self::VmSnapshot),
            0x09 => Some(Self::StreamPosition),
            _ => None,
        };
        proof {
            if let Some(k) = r {
                lemma_kind_byte_injective(k);
            }
        }
        r
    }

    /// Current schema version for this payload kind.
    pub fn current_schema_version(self) -> (r: u16)
        ensures
            r == schema_version_of(self),
    {
        match self {
            Self::ObjectRecord => 1,
            Self::ObjectIndex => 1,
            Self::CompiledCode => 1,
            Self::Grammar => 1,
            Self::GrammarRegistry => 1,
            Self::ParseState => 1,
            Self::MemoTable => 1,
            Self::VmSnapshot => 1,
            Self::StreamPosition => 1,
        }
    }

    /// Wire byte representation.
    pub fn as_byte(self) -> (r: u8)
        ensures
            r == kind_byte(self),
    {
        match self {
            Self::ObjectRecord => 0x01,
            Self::ObjectIndex => 0x02,
            Self::CompiledCode => 0x03,
            Self::Grammar => 0x04,
            Self::GrammarRegistry => 0x05,
            Self::ParseState => 0x06,
            Self::MemoTable => 0x07,
            Self::VmSnapshot => 0x08,
            Self::StreamPosition => 0x09,
        }
    }
}

/// Distinct kinds have distinct wire bytes, so a byte names at most one kind.
pub proof fn lemma_kind_byte_injective(k: PayloadKind)
    ensures
        kind_of_byte(kind_byte(k)) == Some(k),
{
    let b = kind_byte(k);
    assert(kind_byte(k) == b);
    let c = choose|c: PayloadKind| kind_byte(c) == b;
    assert(kind_byte(c) == b);
    assert(c == k);
}

/// Every payload kind round-trips through its wire byte.
pub proof fn lemma_payload_kind_roundtrip(k: PayloadKind)
    ensures
        kind_of_byte(kind_byte(k)) == Some(k),
        0x01 <= kind_byte(k) <= 0x09,
{
    lemma_kind_byte_injective(k);
}

/// Whether a byte is an ASCII decimal digit.
pub open spec fn is_digit(b: u8) -> bool {
    0x30 <= b <= 0x39
}

/// Index of the first `.` in `bytes`, or its length when there is none.
pub open spec fn first_dot(bytes: Seq<u8>) -> nat
    decreases bytes.len(),
{
    if bytes.len() == 0 {
        0
    } else if bytes[0] == 0x2E {
        0
    } else {
        1 + first_dot(bytes.drop_first())
    }
}

/// The number the leading decimal digits of `bytes` denote (0 if none).
pub open spec fn leading_number(bytes: Seq<u8>) -> nat
    decreases bytes.len(),
{
    leading_number_acc(bytes, 0)
}

/// `acc` followed by the leading decimal digits of `bytes`.
pub open spec fn leading_number_acc(bytes: Seq<u8>, acc: nat) -> nat
    decreases bytes.len(),
{
    if bytes.len() == 0 || !is_digit(bytes[0]) {
        acc
    } else {
        leading_number_acc(bytes.drop_first(), acc * 10 + (bytes[0] - 0x30) as nat)
    }
}

/// The number denoted by the leading digits of the `index`-th
/// `.`-separated component of `bytes`; 0 when that component is missing.
pub open spec fn version_part(bytes: Seq<u8>, index: nat) -> nat
    decreases bytes.len(), index,
{
    let d = first_dot(bytes);
    if index == 0 {
        leading_number(bytes)
    } else if d >= bytes.len() {
        0
    } else {
        version_part(bytes.skip(d + 1int), (index - 1) as nat)
    }
}

proof fn lemma_first_dot(bytes: Seq<u8>)
    ensures
        first_dot(bytes) <= bytes.len(),
        first_dot(bytes) < bytes.len() ==> bytes[first_dot(bytes) as int] == 0x2E,
        forall|i: int| 0 <= i < first_dot(bytes) ==> bytes[i] != 0x2E,
    decreases bytes.len(),
{
    if bytes.len() > 0 && bytes[0] != 0x2E {
        lemma_first_dot(bytes.drop_first());
        assert forall|i: int| 0 <= i < first_dot(bytes) implies bytes[i] != 0x2E by {
            if i > 0 {
                assert(bytes[i] == bytes.drop_first()[i - 1]);
            }
        }
    }
}

proof fn lemma_leading_acc_monotone(bytes: Seq<u8>, acc: nat)
    ensures
        leading_number_acc(bytes, acc) >= acc,
    decreases bytes.len(),
{
    if bytes.len() > 0 && is_digit(bytes[0]) {
        lemma_leading_acc_monotone(bytes.drop_first(), acc * 10 + (bytes[0] - 0x30) as nat);
    }
}

/// Parse the `index`-th dotted component of a version string such as
/// `"0.3.0"` (0 = major, 1 = minor, 2 = patch). Reading a component stops
/// at its first non-digit, so pre-release markers (`-rc.1`) are dropped;
/// a missing component reads as 0. The value is truncated to 16 bits.
pub fn parse_version_part(s: &str, index: usize) -> (r: u16)
    requires
        version_part(s.spec_bytes(), index as nat) <= u32::MAX,
    ensures
        r == version_part(s.spec_bytes(), index as nat) as u16,
{
    let bytes = s.as_bytes();
    let ghost all = bytes@;
    let mut i: usize = 0;
    let mut part: usize = 0;
    assert(all.skip(0) =~= all);
    while part < index
        invariant
            part <= index,
            i <= bytes@.len(),
            bytes@ == all,
            all == s.spec_bytes(),
            version_part(all.skip(i as int), (index - part) as nat) == version_part(all, index as nat),
        decreases index - part,
    {
        let ghost rest = all.skip(i as int);
        proof {
            lemma_first_dot(rest);
        }
        let mut j = i;
        while j < bytes.len() && bytes[j] != 0x2E
            invariant
                i <= j <= bytes@.len(),
                bytes@ == all,
                rest == all.skip(i as int),
                j - i <= first_dot(rest),
            decreases bytes@.len() - j,
        {
            assert(rest.len() == all.len() - i);
            assert(rest[j - i] == bytes@[j as int]);
            proof {
                lemma_first_dot(rest);
                if first_dot(rest) == (j - i) as nat {
                    assert(rest[first_dot(rest) as int] == 0x2E);
                }
            }
            j += 1;
        }
        assert(rest.len() == all.len() - i);
        if j < bytes.len() {
            assert(rest[j - i] == 0x2E);
        }
        assert(j - i == first_dot(rest));
        if j >= bytes.len() {
            assert(version_part(rest, (index - part) as nat) == 0);
            assert(version_part(all, index as nat) == 0);
            return 0;
        }
        assert(rest.skip(first_dot(rest) + 1int) =~= all.skip(j + 1));
        i = j + 1;
        part += 1;
    }
    let ghost rest = all.skip(i as int);
    proof {
        lemma_first_dot(rest);
    }
    let mut value: u32 = 0;
    let mut k = i;
    assert(leading_number(rest) == leading_number_acc(rest, 0));
    while k < bytes.len() && bytes[k] >= 0x30 && bytes[k] <= 0x39
        invariant
            i <= k <= bytes@.len(),
            bytes@ == all,
            rest == all.skip(i as int),
            version_part(all, index as nat) <= u32::MAX,
            forall|t: int| i <= t < k ==> is_digit(#[trigger] all[t]),
            leading_number_acc(all.skip(k as int), value as nat) == version_part(all, index as nat),
        decreases bytes@.len() - k,
    {
        assert(all.skip(k as int).drop_first() =~= all.skip(k + 1));
        assert(all.skip(k as int)[0] == bytes@[k as int]);
        proof {
            lemma_leading_acc_monotone(all.skip(k + 1), value as nat * 10 + (bytes@[k as int] - 0x30) as nat);
        }
        value = value * 10 + (bytes[k] - 0x30) as u32;
        k += 1;
    }
    if k < bytes.len() {
        assert(all.skip(k as int)[0] == bytes@[k as int]);
    }
    #[verifier::truncate]
    (value as u16)
}

} // verus!
