use bp3d_tracing::fields::{Field, Value, decode_field, write_value, TAG_U8, TAG_U16, TAG_U32,
    TAG_U64, TAG_I8, TAG_I16, TAG_I32, TAG_I64, TAG_F64, TAG_STR, TAG_BOOL};
use bp3d_tracing::log_msg::LogBuf;

fn encode_one(name: &[u8], value: Value) -> Vec<u8> {
    let mut buf = LogBuf::new(4096);
    Field::new(name.to_vec(), value).write_into(&mut buf);
    buf.data
}

fn roundtrip(name: &[u8], value: Value) -> (Vec<u8>, Value, usize) {
    let bytes = encode_one(name, value);
    let total = bytes.len();
    let (n, v, end) = decode_field(&bytes, 0).expect("field must decode");
    assert_eq!(end, total, "the whole encoding is consumed");
    (n, v, end)
}

#[test]
fn unsigned_widths_compress_and_roundtrip() {
    for (value, tag) in [
        (7u64, TAG_U8),
        (300u64, TAG_U16),
        (70_000u64, TAG_U32),
        (5_000_000_000u64, TAG_U64),
    ] {
        let bytes = encode_one(b"n", Value::Unsigned(value));
        assert_eq!(bytes[2], tag);
        let (name, v, _) = roundtrip(b"n", Value::Unsigned(value));
        assert_eq!(name, b"n".to_vec());
        assert!(matches!(v, Value::Unsigned(u) if u == value));
    }
}

#[test]
fn signed_widths_compress_and_roundtrip() {
    for (value, tag) in [
        (-5i64, TAG_I8),
        (100i64, TAG_I8),
        (-1000i64, TAG_I16),
        (30_000i64, TAG_I16),
        (-1_000_000i64, TAG_I32),
        (-5_000_000_000i64, TAG_I64),
    ] {
        let bytes = encode_one(b"k", Value::Signed(value));
        assert_eq!(bytes[2], tag, "value {} should use tag {}", value, tag);
        let (_, v, _) = roundtrip(b"k", Value::Signed(value));
        assert!(matches!(v, Value::Signed(i) if i == value), "value {} round trips", value);
    }
}

#[test]
fn float_bits_roundtrip() {
    let bits = 0.5f64.to_bits();
    let bytes = encode_one(b"ratio", Value::Float(bits));
    assert_eq!(bytes[6], TAG_F64);
    let (_, v, _) = roundtrip(b"ratio", Value::Float(bits));
    match v {
        Value::Float(b) => assert_eq!(f64::from_bits(b), 0.5),
        _ => panic!("expected a float"),
    }
}

#[test]
fn text_roundtrip() {
    let bytes = encode_one(b"msg", Value::Text(b"ok".to_vec()));
    assert_eq!(bytes[4], TAG_STR);
    let (name, v, _) = roundtrip(b"msg", Value::Text(b"ok".to_vec()));
    assert_eq!(name, b"msg".to_vec());
    assert!(matches!(v, Value::Text(t) if t == b"ok".to_vec()));
}

#[test]
fn bool_roundtrip() {
    let bytes = encode_one(b"flag", Value::Bool(true));
    assert_eq!(bytes[5], TAG_BOOL);
    assert_eq!(bytes[6], 1);
    let (_, v, _) = roundtrip(b"flag", Value::Bool(true));
    assert!(matches!(v, Value::Bool(true)));
    let (_, v, _) = roundtrip(b"flag", Value::Bool(false));
    assert!(matches!(v, Value::Bool(false)));
}

#[test]
fn field_layout_is_name_nul_tag_value() {
    let bytes = encode_one(b"count", Value::Unsigned(7));
    assert_eq!(&bytes[0..5], b"count");
    assert_eq!(bytes[5], 0);
    assert_eq!(bytes[6], TAG_U8);
    assert_eq!(bytes[7], 7);
    assert_eq!(bytes.len(), 8);
}

#[test]
fn write_into_counts_fields() {
    let mut buf = LogBuf::new(4096);
    Field::new(b"a".to_vec(), Value::Bool(true)).write_into(&mut buf);
    Field::new(b"b".to_vec(), Value::Unsigned(1)).write_into(&mut buf);
    assert_eq!(buf.var_count, 2);
}

#[test]
fn truncated_write_keeps_prefix_only() {
    // The buffer takes what fits, byte for byte, and drops the rest.
    let mut buf = LogBuf::new(4);
    Field::new(b"abcdef".to_vec(), Value::Bool(true)).write_into(&mut buf);
    assert_eq!(buf.data, b"abcd".to_vec());
    assert_eq!(buf.data.len(), 4);
}

#[test]
fn truncation_cuts_at_exact_boundary() {
    let mut buf = LogBuf::new(6);
    buf.write_bytes(&b"xy".to_vec());
    buf.write_bytes(&b"12345678".to_vec());
    assert_eq!(buf.data, b"xy1234".to_vec());
    buf.write_byte(9);
    assert_eq!(buf.data.len(), 6, "a full buffer drops further bytes");
}

#[test]
fn decode_fails_on_truncated_value() {
    let mut bytes = encode_one(b"n", Value::Unsigned(70_000));
    bytes.truncate(bytes.len() - 2);
    assert!(decode_field(&bytes, 0).is_none());
}

#[test]
fn decode_fails_on_unknown_tag() {
    let bytes = vec![b'x', 0, 200, 1];
    assert!(decode_field(&bytes, 0).is_none());
}

#[test]
fn decode_fails_without_nul() {
    let bytes = vec![b'x', b'y', b'z'];
    assert!(decode_field(&bytes, 0).is_none());
}

#[test]
fn write_value_alone_emits_tag_and_payload() {
    let mut buf = LogBuf::new(64);
    write_value(&mut buf, &Value::Unsigned(300));
    assert_eq!(buf.data[0], TAG_U16);
    assert_eq!(buf.data[1], 44);
    assert_eq!(buf.data[2], 1);
}
