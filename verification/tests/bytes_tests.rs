use fmpl_core::bytes;
use fmpl_core::bytes::{f64_le, sleb128, to_hex, u16_le, u32_le, u64_le, u8_encode, uleb128};
use fmpl_core::value::Value;

fn bytes_to_vec(v: &Value) -> Vec<u8> {
    if let Value::List(items) = v {
        items
            .iter()
            .filter_map(|v| if let Value::Int(n) = v { Some(*n as u8) } else { None })
            .collect()
    } else {
        vec![]
    }
}

#[test]
fn test_uleb128_small() {
    assert_eq!(bytes_to_vec(&uleb128(0)), vec![0x00]);
    assert_eq!(bytes_to_vec(&uleb128(1)), vec![0x01]);
    assert_eq!(bytes_to_vec(&uleb128(127)), vec![0x7F]);
}

#[test]
fn test_uleb128_larger() {
    assert_eq!(bytes_to_vec(&uleb128(128)), vec![0x80, 0x01]);
    assert_eq!(bytes_to_vec(&uleb128(255)), vec![0xFF, 0x01]);
    assert_eq!(bytes_to_vec(&uleb128(256)), vec![0x80, 0x02]);
    assert_eq!(bytes_to_vec(&uleb128(16383)), vec![0xFF, 0x7F]);
    assert_eq!(bytes_to_vec(&uleb128(16384)), vec![0x80, 0x80, 0x01]);
}

#[test]
fn test_sleb128_positive() {
    assert_eq!(bytes_to_vec(&sleb128(0)), vec![0x00]);
    assert_eq!(bytes_to_vec(&sleb128(1)), vec![0x01]);
    assert_eq!(bytes_to_vec(&sleb128(63)), vec![0x3F]);
    assert_eq!(bytes_to_vec(&sleb128(64)), vec![0xC0, 0x00]);
}

#[test]
fn test_sleb128_negative() {
    assert_eq!(bytes_to_vec(&sleb128(-1)), vec![0x7F]);
    assert_eq!(bytes_to_vec(&sleb128(-64)), vec![0x40]);
    assert_eq!(bytes_to_vec(&sleb128(-65)), vec![0xBF, 0x7F]);
    assert_eq!(bytes_to_vec(&sleb128(-128)), vec![0x80, 0x7F]);
}

#[test]
fn test_u16_le() {
    assert_eq!(bytes_to_vec(&u16_le(0x1234)), vec![0x34, 0x12]);
}

#[test]
fn test_u32_le() {
    assert_eq!(bytes_to_vec(&u32_le(0x12345678)), vec![0x78, 0x56, 0x34, 0x12]);
}

fn uleb_decode(bytes: &[u8]) -> u64 {
    let mut v: u64 = 0;
    for (i, b) in bytes.iter().enumerate() {
        v |= ((b & 0x7F) as u64) << (7 * i);
    }
    v
}

fn sleb_decode(bytes: &[u8]) -> i64 {
    let mut v: i64 = 0;
    let mut shift = 0;
    for b in bytes {
        v |= ((b & 0x7F) as i64) << shift;
        shift += 7;
    }
    let last = bytes[bytes.len() - 1];
    if shift < 64 && (last & 0x40) != 0 {
        v |= -1i64 << shift;
    }
    v
}

#[test]
fn uleb128_roundtrip_and_framing() {
    for n in [0i64, 1, 127, 128, 300, 16384, 1 << 40, i64::MAX, -1, i64::MIN] {
        let b = bytes_to_vec(&uleb128(n));
        assert_eq!(uleb_decode(&b), n as u64);
        for (i, x) in b.iter().enumerate() {
            assert_eq!(*x >= 0x80, i + 1 < b.len());
        }
    }
    assert_eq!(bytes_to_vec(&uleb128(-1)).len(), 10);
}

#[test]
fn sleb128_roundtrip_and_framing() {
    for n in [0i64, 1, -1, 63, 64, -64, -65, 1000, -1000, i64::MAX, i64::MIN] {
        let b = bytes_to_vec(&sleb128(n));
        assert_eq!(sleb_decode(&b), n);
        for (i, x) in b.iter().enumerate() {
            assert_eq!(*x >= 0x80, i + 1 < b.len());
        }
    }
}

#[test]
fn fixed_width_encoders() {
    assert_eq!(bytes_to_vec(&u8_encode(0x1FF)), vec![0xFF]);
    assert_eq!(u8_encode(-1), Value::List(vec![Value::Int(255)]));
    assert_eq!(bytes_to_vec(&u16_le(-1)), vec![0xFF, 0xFF]);
    assert_eq!(
        bytes_to_vec(&u64_le(0x0102030405060708)),
        vec![0x08, 0x07, 0x06, 0x05, 0x04, 0x03, 0x02, 0x01]
    );
    assert_eq!(
        bytes_to_vec(&f64_le(1.0f64.to_bits())),
        vec![0, 0, 0, 0, 0, 0, 0xF0, 0x3F]
    );
}

#[test]
fn concat_len_and_hex() {
    let lists = Value::List(vec![
        Value::List(vec![Value::Int(1), Value::Int(2)]),
        Value::Int(3),
        Value::String("skip".to_string()),
        Value::List(vec![Value::Int(255)]),
    ]);
    let joined = bytes::concat(&lists);
    assert_eq!(bytes_to_vec(&joined), vec![1, 2, 3, 255]);
    assert_eq!(bytes::len(&joined), Value::Int(4));
    assert_eq!(bytes::len(&Value::Null), Value::Int(0));
    assert_eq!(bytes::concat(&Value::Int(5)), Value::List(vec![]));
    assert_eq!(to_hex(&joined), Value::String("010203ff".to_string()));
    assert_eq!(to_hex(&Value::Null), Value::String(String::new()));
    assert_eq!(to_hex(&Value::List(vec![Value::Int(-1), Value::Null, Value::Int(0x1AB)])), Value::String("ffab".to_string()));
}
