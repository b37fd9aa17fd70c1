//! Byte-sequence encoders: LEB128 variable-length integers, fixed-width
//! little-endian integers, and helpers over lists of byte values.

use crate::value::{Datum, Value};
use vstd::prelude::*;

verus! {

/// The model of a list of byte values: a list of integers in 0..256.
pub open spec fn byte_list(bytes: Seq<u8>) -> Datum {
    Datum::List(bytes.map_values(|b: u8| Datum::Int(b as int)))
}

/// ULEB128 encoding of a natural number: seven bits per byte, least
/// significant group first, the high bit set on every byte but the last.
pub open spec fn uleb128_spec(v: nat) -> Seq<u8>
    decreases v,
{
    if v < 128 {
        seq![v as u8]
    } else {
        seq![(v % 128 + 128) as u8] + uleb128_spec(v / 128)
    }
}

/// The number a ULEB128 byte sequence denotes.
pub open spec fn uleb128_value(bytes: Seq<u8>) -> nat
    decreases bytes.len(),
{
    if bytes.len() == 0 {
        0
    } else {
        (bytes[0] % 128) as nat + 128 * uleb128_value(bytes.drop_first())
    }
}

/// A LEB128 byte sequence is well framed when exactly its last byte has the
/// continuation bit clear.
pub open spec fn leb128_framed(bytes: Seq<u8>) -> bool {
    &&& bytes.len() > 0
    &&& forall|i: int| 0 <= i < bytes.len() - 1 ==> #[trigger] bytes[i] >= 128
    &&& bytes.last() < 128
}

/// SLEB128 encoding of an integer: seven bits per byte, least significant
/// group first, ending as soon as the remaining value is the sign extension
/// of bit 6 of the last byte.
pub open spec fn sleb128_spec(v: int) -> Seq<u8>
    decreases (if v >= 0 { v } else { -v }),
{
    let low = v % 128;
    let rest = v / 128;
    if (rest == 0 && low < 64) || (rest == -1 && low >= 64) {
        seq![low as u8]
    } else {
        proof {
            lemma_sleb_step_shrinks(v);
        }
        seq![(low + 128) as u8] + sleb128_spec(rest)
    }
}

/// One SLEB128 step that does not stop strictly shrinks the magnitude.
pub proof fn lemma_sleb_step_shrinks(v: int)
    requires
        !((v / 128 == 0 && v % 128 < 64) || (v / 128 == -1 && v % 128 >= 64)),
    ensures
        (if v / 128 >= 0 { v / 128 } else { -(v / 128) }) < (if v >= 0 { v } else { -v }),
{
    assert(v == 128 * (v / 128) + v % 128 && 0 <= v % 128 < 128) by (nonlinear_arith);
}

/// The integer an SLEB128 byte sequence denotes: the low seven bits of each
/// byte, least significant first, sign-extended from bit 6 of the last byte.
pub open spec fn sleb128_value(bytes: Seq<u8>) -> int
    decreases bytes.len(),
{
    if bytes.len() <= 1 {
        if bytes.len() == 0 {
            0
        } else if bytes[0] % 128 >= 64 {
            bytes[0] % 128 - 128
        } else {
            (bytes[0] % 128) as int
        }
    } else {
        (bytes[0] % 128) + 128 * sleb128_value(bytes.drop_first())
    }
}

/// The first `k` little-endian bytes of `v`.
pub open spec fn le_bytes(v: nat, k: nat) -> Seq<u8>
    decreases k,
{
    if k == 0 {
        seq![]
    } else {
        seq![(v % 256) as u8] + le_bytes(v / 256, (k - 1) as nat)
    }
}

/// The number a little-endian byte sequence denotes.
pub open spec fn le_value(bytes: Seq<u8>) -> nat
    decreases bytes.len(),
{
    if bytes.len() == 0 {
        0
    } else {
        bytes[0] as nat + 256 * le_value(bytes.drop_first())
    }
}

/// Decoding the ULEB128 encoding of `v` gives back `v`, and the encoding is
/// well framed.
pub proof fn lemma_uleb128_roundtrip(v: nat)
    ensures
        uleb128_value(uleb128_spec(v)) == v,
        leb128_framed(uleb128_spec(v)),
    decreases v,
{
    let s = uleb128_spec(v);
    if v < 128 {
        assert(s.drop_first() =~= Seq::<u8>::empty());
        assert(s[0] == v);
        assert(uleb128_value(s.drop_first()) == 0);
        assert(uleb128_value(s) == (s[0] % 128) as nat + 128 * uleb128_value(s.drop_first()));
    } else {
        lemma_uleb128_roundtrip(v / 128);
        assert(s[0] as int == v % 128 + 128);
        let t = uleb128_spec(v / 128);
        assert(s.drop_first() =~= t);
        assert(v == 128 * (v / 128) + v % 128 && v % 128 < 128) by (nonlinear_arith);
        assert(s[0] % 128 == v % 128);
        assert(uleb128_value(s) == (s[0] % 128) as nat + 128 * uleb128_value(s.drop_first()));
        assert forall|i: int| 0 <= i < s.len() - 1 implies #[trigger] s[i] >= 128 by {
            if i > 0 {
                assert(s[i] == t[i - 1]);
            }
        }
    }
}

/// Decoding the SLEB128 encoding of `v` gives back `v`, and the encoding is
/// well framed.
pub proof fn lemma_sleb128_roundtrip(v: int)
    ensures
        sleb128_value(sleb128_spec(v)) == v,
        leb128_framed(sleb128_spec(v)),
    decreases (if v >= 0 { v } else { -v }),
{
    let s = sleb128_spec(v);
    let low = v % 128;
    let rest = v / 128;
    assert(v == 128 * rest + low && 0 <= low < 128) by (nonlinear_arith)
        requires
            rest == v / 128,
            low == v % 128,
    ;
    if (rest == 0 && low < 64) || (rest == -1 && low >= 64) {
    } else {
        lemma_sleb_step_shrinks(v);
        lemma_sleb128_roundtrip(rest);
        let t = sleb128_spec(rest);
        assert(s.drop_first() =~= t);
        assert forall|i: int| 0 <= i < s.len() - 1 implies #[trigger] s[i] >= 128 by {
            if i > 0 {
                assert(s[i] == t[i - 1]);
            }
        }
    }
}

/// `le_bytes(v, k)` has `k` bytes.
pub proof fn lemma_le_bytes_len(v: nat, k: nat)
    ensures
        le_bytes(v, k).len() == k,
    decreases k,
{
    if k > 0 {
        lemma_le_bytes_len(v / 256, (k - 1) as nat);
    }
}

/// `256` to the power `k`.
pub open spec fn pow256(k: nat) -> nat
    decreases k,
{
    if k == 0 {
        1
    } else {
        256 * pow256((k - 1) as nat)
    }
}

/// Decoding the first `k` little-endian bytes of `v` gives back `v` when
/// `v` fits in `k` bytes.
pub proof fn lemma_le_roundtrip(v: nat, k: nat)
    requires
        v < pow256(k),
    ensures
        le_value(le_bytes(v, k)) == v,
        le_bytes(v, k).len() == k,
    decreases k,
{
    let s = le_bytes(v, k);
    if k > 0 {
        let p = pow256((k - 1) as nat);
        assert(v / 256 < p) by (nonlinear_arith)
            requires
                v < 256 * p,
        ;
        lemma_le_roundtrip(v / 256, (k - 1) as nat);
        assert(s.drop_first() =~= le_bytes(v / 256, (k - 1) as nat));
        assert(v == 256 * (v / 256) + v % 256) by (nonlinear_arith);
    }
}

/// A little-endian byte sequence denotes a number below `256^len`, and
/// re-encoding that number in as many bytes gives the sequence back.
pub proof fn lemma_le_value_bytes(s: Seq<u8>)
    ensures
        le_value(s) < pow256(s.len()),
        le_bytes(le_value(s), s.len()) == s,
    decreases s.len(),
{
    if s.len() > 0 {
        let t = s.drop_first();
        lemma_le_value_bytes(t);
        let v = le_value(s);
        let w = le_value(t);
        assert(v == s[0] + 256 * w);
        assert(v < 256 * pow256(t.len())) by (nonlinear_arith)
            requires
                v == s[0] + 256 * w,
                w < pow256(t.len()),
                s[0] < 256,
        ;
        assert(v % 256 == s[0] && v / 256 == w) by (nonlinear_arith)
            requires
                v == s[0] + 256 * w,
                s[0] < 256,
        ;
        assert(le_bytes(v, s.len()) =~= s);
    }
}

/// `256^8` is `2^64`.
pub proof fn lemma_pow256_8()
    ensures
        pow256(8) == 0x1_0000_0000_0000_0000,
        pow256(4) == 0x1_0000_0000,
        pow256(2) == 0x1_0000,
{
    reveal_with_fuel(pow256, 9);
}

/// Reads `k` (at most 8) little-endian bytes of `bytes` starting at `off`.
pub fn le_read(bytes: &[u8], off: usize, k: usize) -> (r: u64)
    requires
        off + k <= bytes.len(),
        k <= 8,
    ensures
        r == le_value(bytes@.subrange(off as int, off + k)),
{
    let mut v: u64 = 0;
    let mut j: usize = k;
    proof {
        lemma_pow256_8();
    }
    assert(bytes@.subrange(off + k, off + k) =~= Seq::<u8>::empty());
    while j > 0
        invariant
            j <= k <= 8,
            off + k <= bytes.len(),
            v == le_value(bytes@.subrange(off + j, off + k)),
            v < pow256((k - j) as nat),
            pow256(8) == 0x1_0000_0000_0000_0000,
        decreases j,
    {
        let ghost s = bytes@.subrange(off + j - 1, off + k);
        assert(s.drop_first() =~= bytes@.subrange(off + j, off + k));
        proof {
            lemma_pow256_monotone((k - j + 1) as nat, 8);
        }
        let b = bytes[off + (j - 1)];
        assert(v * 256 + b < pow256((k - j + 1) as nat)) by (nonlinear_arith)
            requires
                v < pow256((k - j) as nat),
                pow256((k - j + 1) as nat) == 256 * pow256((k - j) as nat),
                b < 256,
        ;
        v = v * 256 + b as u64;
        j -= 1;
    }
    v
}

/// `pow256` is monotone.
pub proof fn lemma_pow256_monotone(a: nat, b: nat)
    requires
        a <= b,
    ensures
        pow256(a) <= pow256(b),
    decreases b,
{
    if a < b {
        lemma_pow256_monotone(a, (b - 1) as nat);
    }
}

/// Wraps a byte vector as a list of integer values.
fn bytes_to_value(bytes: &Vec<u8>) -> (r: Value)
    ensures
        r.datum() == byte_list(bytes@),
{
    let mut out: Vec<Value> = Vec::new();
    let mut i: usize = 0;
    while i < bytes.len()
        invariant
            i <= bytes@.len(),
            out@.len() == i,
            forall|j: int| 0 <= j < i ==> (#[trigger] out@[j]) == Value::Int(bytes@[j] as i64),
        decreases bytes@.len() - i,
    {
        out.push(Value::Int(bytes[i] as i64));
        i += 1;
    }
    let r = Value::List(out);
    assert forall|j: int| 0 <= j < bytes@.len() implies #[trigger] r.datum()->List_0[j] == byte_list(bytes@)->List_0[j] by {
        assert(out@[j] == Value::Int(bytes@[j] as i64));
        assert(out@[j].datum() == Datum::Int(bytes@[j] as int));
    }
    assert(r.datum()->List_0 =~= byte_list(bytes@)->List_0);
    r
}

/// ULEB128 bytes of `v`.
fn uleb128_encode(v: u64) -> (r: Vec<u8>)
    ensures
        r@ == uleb128_spec(v as nat),
{
    let mut out: Vec<u8> = Vec::new();
    let mut val = v;
    while val >= 128
        invariant
            out@ + uleb128_spec(val as nat) == uleb128_spec(v as nat),
        decreases val,
    {
        let byte = ((val & 0x7F) | 0x80) as u8;
        assert(((val & 0x7F) | 0x80) == val % 128 + 128 && val >> 7 == val / 128) by (bit_vector);
        let ghost prev = out@;
        out.push(byte);
        assert(uleb128_spec(val as nat) == seq![byte] + uleb128_spec((val >> 7) as nat));
        assert(prev + uleb128_spec(val as nat) =~= out@ + uleb128_spec((val >> 7) as nat));
        val = val >> 7;
    }
    let ghost prev = out@;
    out.push(val as u8);
    assert(out@ =~= prev + uleb128_spec(val as nat));
    out
}

/// SLEB128 bytes of `v`.
fn sleb128_encode(v: i64) -> (r: Vec<u8>)
    ensures
        r@ == sleb128_spec(v as int),
{
    let mut out: Vec<u8> = Vec::new();
    let mut val = v;
    let mut more = true;
    while more
        invariant
            more ==> out@ + sleb128_spec(val as int) == sleb128_spec(v as int),
            !more ==> out@ == sleb128_spec(v as int),
        decreases (if val >= 0 { val as int } else { -(val as int) }) + (if more { 1int } else { 0 }),
    {
        let byte = (val & 0x7F) as u8;
        let rest = val >> 7;
        assert((val & 0x7F) as int == (val as int) % 128) by (bit_vector);
        assert((val >> 7) as int == (val as int) / 128) by (bit_vector);
        let sign_bit = (byte & 0x40) != 0;
        assert(((byte & 0x40) != 0) == (byte >= 64)) by (bit_vector)
            requires
                byte < 128,
        ;
        let ghost prev = out@;
        if (rest == 0 && !sign_bit) || (rest == -1 && sign_bit) {
            out.push(byte);
            assert(out@ =~= prev + sleb128_spec(val as int));
            more = false;
        } else {
            assert((byte | 0x80) == byte + 128) by (bit_vector)
                requires
                    byte < 128,
            ;
            out.push(byte | 0x80);
            proof {
                lemma_sleb_step_shrinks(val as int);
            }
            assert(prev + sleb128_spec(val as int) =~= out@ + sleb128_spec(rest as int));
            val = rest;
        }
    }
    out
}

/// The first `k` little-endian bytes of `v`.
pub fn le_encode(v: u64, k: usize) -> (r: Vec<u8>)
    ensures
        r@ == le_bytes(v as nat, k as nat),
{
    let mut out: Vec<u8> = Vec::new();
    let mut val = v;
    let mut i: usize = 0;
    while i < k
        invariant
            i <= k,
            out@ + le_bytes(val as nat, (k - i) as nat) == le_bytes(v as nat, k as nat),
        decreases k - i,
    {
        assert((val & 0xFF) == val % 256 && val >> 8 == val / 256) by (bit_vector);
        let ghost prev = out@;
        out.push((val & 0xFF) as u8);
        assert(le_bytes(val as nat, (k - i) as nat) =~= seq![(val % 256) as u8] + le_bytes(
            (val / 256) as nat,
            (k - i - 1) as nat,
        ));
        assert(prev + le_bytes(val as nat, (k - i) as nat) =~= out@ + le_bytes(
            (val >> 8) as nat,
            (k - i - 1) as nat,
        ));
        val = val >> 8;
        i += 1;
    }
    assert(out@ =~= out@ + le_bytes(val as nat, 0));
    out
}

/// Encode an unsigned integer as ULEB128 (the argument's two's-complement
/// bits read as a `u64`). Returns a list of bytes.
pub fn uleb128(n: i64) -> (r: Value)
    ensures
        r.datum() == byte_list(uleb128_spec((n as u64) as nat)),
{
    let bytes = uleb128_encode(n as u64);
    bytes_to_value(&bytes)
}

/// Encode a signed integer as SLEB128. Returns a list of bytes.
pub fn sleb128(n: i64) -> (r: Value)
    ensures
        r.datum() == byte_list(sleb128_spec(n as int)),
{
    let bytes = sleb128_encode(n);
    bytes_to_value(&bytes)
}

/// Encode as a single byte (the argument modulo 256).
pub fn u8_encode(n: i64) -> (r: Value)
    ensures
        r.datum() == byte_list(seq![(n % 256) as u8]),
{
    let b = n & 0xFF;
    assert((n & 0xFF) as int == (n as int) % 256) by (bit_vector);
    let mut out: Vec<Value> = Vec::new();
    out.push(Value::Int(b));
    let r = Value::List(out);
    assert(out@[0] == Value::Int(b));
    assert(out@[0].datum() == Datum::Int(b as int));
    assert(r.datum()->List_0 =~= byte_list(seq![(n % 256) as u8])->List_0);
    r
}

/// Encode as 16-bit little-endian (the argument truncated to 16 bits).
pub fn u16_le(n: i64) -> (r: Value)
    ensures
        r.datum() == byte_list(le_bytes((n as u16) as nat, 2)),
{
    let bytes = le_encode((n as u16) as u64, 2);
    bytes_to_value(&bytes)
}

/// Encode as 32-bit little-endian (the argument truncated to 32 bits).
pub fn u32_le(n: i64) -> (r: Value)
    ensures
        r.datum() == byte_list(le_bytes((n as u32) as nat, 4)),
{
    let bytes = le_encode((n as u32) as u64, 4);
    bytes_to_value(&bytes)
}

/// Encode as 64-bit little-endian (the argument's two's-complement bits).
pub fn u64_le(n: i64) -> (r: Value)
    ensures
        r.datum() == byte_list(le_bytes((n as u64) as nat, 8)),
{
    let bytes = le_encode(n as u64, 8);
    bytes_to_value(&bytes)
}

/// Encode the bit pattern of an `f64` as 64-bit little-endian.
pub fn f64_le(bits: u64) -> (r: Value)
    ensures
        r.datum() == byte_list(le_bytes(bits as nat, 8)),
{
    let bytes = le_encode(bits, 8);
    bytes_to_value(&bytes)
}

/// What one element contributes to a concatenation: a list contributes its
/// elements, an integer contributes itself, anything else nothing.
pub open spec fn concat_piece(d: Datum) -> Seq<Datum> {
    match d {
        Datum::List(items) => items,
        Datum::Int(x) => seq![Datum::Int(x)],
        _ => seq![],
    }
}

/// The concatenation of the pieces of `items`, in order.
pub open spec fn concat_items(items: Seq<Datum>) -> Seq<Datum>
    decreases items.len(),
{
    if items.len() == 0 {
        seq![]
    } else {
        concat_items(items.drop_last()) + concat_piece(items.last())
    }
}

/// Model of [`concat`]: a non-list argument gives the empty list.
pub open spec fn concat_spec(d: Datum) -> Datum {
    match d {
        Datum::List(items) => Datum::List(concat_items(items)),
        _ => Datum::List(seq![]),
    }
}

/// Concatenate a list of byte lists into a single byte list. Integers in the
/// outer list are kept as single bytes; other elements are ignored.
pub fn concat(lists: &Value) -> (r: Value)
    ensures
        r.datum() == concat_spec(lists.datum()),
{
    let mut result: Vec<Value> = Vec::new();
    match lists {
        Value::List(items) => {
            let ghost d = lists.datum()->List_0;
            assert forall|j: int| 0 <= j < items@.len() implies #[trigger] d[j] == items@[j].datum() by {}
            let mut i: usize = 0;
            while i < items.len()
                invariant
                    i <= items@.len(),
                    d.len() == items@.len(),
                    forall|j: int| 0 <= j < items@.len() ==> #[trigger] d[j] == items@[j].datum(),
                    result@.len() == concat_items(d.take(i as int)).len(),
                    forall|k: int|
                        0 <= k < result@.len() ==> (#[trigger] result@[k]).datum() == concat_items(
                            d.take(i as int),
                        )[k],
                decreases items@.len() - i,
            {
                let ghost before = concat_items(d.take(i as int));
                assert(d.take(i + 1).drop_last() =~= d.take(i as int));
                assert(concat_items(d.take(i + 1)) == before + concat_piece(d[i as int]));
                match &items[i] {
                    Value::List(bytes) => {
                        let ghost piece = d[i as int]->List_0;
                        assert forall|j: int| 0 <= j < bytes@.len() implies #[trigger] piece[j] == bytes@[j].datum() by {}
                        let ghost start = result@.len();
                        let mut j: usize = 0;
                        while j < bytes.len()
                            invariant
                                j <= bytes@.len(),
                                piece.len() == bytes@.len(),
                                forall|t: int| 0 <= t < bytes@.len() ==> #[trigger] piece[t] == bytes@[t].datum(),
                                result@.len() == start + j,
                                start == before.len(),
                                forall|k: int| 0 <= k < result@.len() ==> (#[trigger] result@[k]).datum() == (before + piece)[k],
                            decreases bytes@.len() - j,
                        {
                            result.push(bytes[j].deep_clone());
                            j += 1;
                        }
                    },
                    Value::Int(b) => {
                        let ghost start = result@.len();
                        result.push(Value::Int(*b));
                        assert(result@[start as int].datum() == Datum::Int(*b as int));
                    },
                    _ => {},
                }
                i += 1;
            }
            assert(d.take(items@.len() as int) =~= d);
        },
        _ => {},
    }
    let r = Value::List(result);
    assert(r.datum()->List_0 =~= concat_spec(lists.datum())->List_0);
    r
}

/// Model of [`len`]: the length of a list (as the `i64` the length
/// converts to), 0 for anything else.
pub open spec fn len_spec(v: Value) -> Datum {
    match v {
        Value::List(items) => Datum::Int((items@.len() as i64) as int),
        _ => Datum::Int(0),
    }
}

/// Get the length of a byte list.
pub fn len(list: &Value) -> (r: Value)
    ensures
        r.datum() == len_spec(*list),
{
    match list {
        Value::List(items) => Value::Int(items.len() as i64),
        _ => Value::Int(0),
    }
}

/// The lowercase hexadecimal digit for `d` (below 16).
pub open spec fn hex_digit(d: int) -> char {
    if d < 10 {
        (('0' as int) + d) as char
    } else {
        (('a' as int) + d - 10) as char
    }
}

/// The hexadecimal text of the integer elements of `items`, two lowercase
/// digits per element (the element taken modulo 256); other elements are
/// skipped.
pub open spec fn hex_text(items: Seq<Datum>) -> Seq<char>
    decreases items.len(),
{
    if items.len() == 0 {
        seq![]
    } else {
        hex_text(items.drop_last()) + match items.last() {
            Datum::Int(n) => seq![hex_digit((n % 256) / 16), hex_digit(n % 16)],
            _ => seq![],
        }
    }
}

/// Model of [`to_hex`]: the hexadecimal text of a list, the empty string for
/// anything else.
pub open spec fn to_hex_spec(d: Datum) -> Datum {
    match d {
        Datum::List(items) => Datum::Str(hex_text(items)),
        _ => Datum::Str(seq![]),
    }
}

fn hex_str(d: u8) -> (s: &'static str)
    requires
        d < 16,
    ensures
        s@ == seq![hex_digit(d as int)],
{
    proof {
        reveal_strlit("0");
        reveal_strlit("1");
        reveal_strlit("2");
        reveal_strlit("3");
        reveal_strlit("4");
        reveal_strlit("5");
        reveal_strlit("6");
        reveal_strlit("7");
        reveal_strlit("8");
        reveal_strlit("9");
        reveal_strlit("a");
        reveal_strlit("b");
        reveal_strlit("c");
        reveal_strlit("d");
        reveal_strlit("e");
        reveal_strlit("f");
    }
    let s = match d {
        0 => "0",
        1 => "1",
        2 => "2",
        3 => "3",
        4 => "4",
        5 => "5",
        6 => "6",
        7 => "7",
        8 => "8",
        9 => "9",
        10 => "a",
        11 => "b",
        12 => "c",
        13 => "d",
        14 => "e",
        _ => "f",
    };
    assert(s@ =~= seq![hex_digit(d as int)]);
    s
}

/// Convert a list of byte values to a hexadecimal string (for debugging).
pub fn to_hex(list: &Value) -> (r: Value)
    ensures
        r.datum() == to_hex_spec(list.datum()),
{
    let mut out = String::new();
    match list {
        Value::List(items) => {
            let ghost d = list.datum()->List_0;
            assert forall|j: int| 0 <= j < items@.len() implies #[trigger] d[j] == items@[j].datum() by {}
            let mut i: usize = 0;
            while i < items.len()
                invariant
                    i <= items@.len(),
                    d.len() == items@.len(),
                    forall|j: int| 0 <= j < items@.len() ==> #[trigger] d[j] == items@[j].datum(),
                    out@ == hex_text(d.take(i as int)),
                decreases items@.len() - i,
            {
                assert(d.take(i + 1).drop_last() =~= d.take(i as int));
                match &items[i] {
                    Value::Int(n) => {
                        let b = *n as u8;
                        assert(b as int == (*n as int) % 256) by (bit_vector)
                            requires
                                b == *n as u8,
                        ;
                        let hi = b / 16;
                        let lo = b % 16;
                        assert(lo as int == (*n as int) % 16) by (nonlinear_arith)
                            requires
                                b as int == (*n as int) % 256,
                                lo == b % 16,
                        ;
                        out.append(hex_str(hi));
                        out.append(hex_str(lo));
                        assert(out@ =~= hex_text(d.take(i + 1)));
                    },
                    _ => {
                        assert(out@ =~= hex_text(d.take(i + 1)));
                    },
                }
                i += 1;
            }
            assert(d.take(items@.len() as int) =~= d);
        },
        _ => {},
    }
    Value::String(out)
}

} // verus!
