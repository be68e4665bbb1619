use fe2o3_amqp::codec::{Primitive, Serializer};

fn serialized<F: FnOnce(&mut Serializer)>(f: F) -> Vec<u8> {
    let mut se = Serializer::new(Vec::new());
    f(&mut se);
    se.into_inner()
}

#[test]
fn test_bool() {
    assert_eq!(serialized(|s| s.serialize_bool(true)), vec![0x41]);
    assert_eq!(serialized(|s| s.serialize_bool(false)), vec![0x42]);
}

#[test]
fn test_i8() {
    assert_eq!(serialized(|s| s.serialize_i8(0)), vec![0x51, 0]);
    assert_eq!(serialized(|s| s.serialize_i8(i8::MIN)), vec![0x51, 128u8]);
    assert_eq!(serialized(|s| s.serialize_i8(i8::MAX)), vec![0x51, 127u8]);
}

#[test]
fn test_i16() {
    assert_eq!(serialized(|s| s.serialize_i16(0)), vec![0x61, 0, 0]);
    assert_eq!(serialized(|s| s.serialize_i16(-1)), vec![0x61, 255, 255]);
}

#[test]
fn test_i32() {
    assert_eq!(serialized(|s| s.serialize_i32(0)), vec![0x54, 0]);
    assert_eq!(serialized(|s| s.serialize_i32(i32::MAX)), vec![0x71, 127, 255, 255, 255]);
}

#[test]
fn test_i64() {
    assert_eq!(serialized(|s| s.serialize_i64(0)), vec![0x55, 0]);
    assert_eq!(
        serialized(|s| s.serialize_i64(i64::MAX)),
        vec![0x81, 127, 255, 255, 255, 255, 255, 255, 255]
    );
}

#[test]
fn test_u8() {
    assert_eq!(serialized(|s| s.serialize_u8(u8::MIN)), vec![0x50, 0]);
    assert_eq!(serialized(|s| s.serialize_u8(u8::MAX)), vec![0x50, 255]);
}

#[test]
fn test_u16() {
    assert_eq!(serialized(|s| s.serialize_u16(0)), vec![0x60, 0, 0]);
    assert_eq!(serialized(|s| s.serialize_u16(131)), vec![0x60, 0, 131]);
    assert_eq!(serialized(|s| s.serialize_u16(65535)), vec![0x60, 255, 255]);
}

#[test]
fn test_u32() {
    assert_eq!(serialized(|s| s.serialize_u32(0)), vec![0x43]);
    assert_eq!(serialized(|s| s.serialize_u32(255)), vec![0x52, 255]);
    let mut expected = vec![0x70];
    expected.append(&mut vec![255; 4]);
    assert_eq!(serialized(|s| s.serialize_u32(u32::MAX)), expected);
}

#[test]
fn test_u64() {
    assert_eq!(serialized(|s| s.serialize_u64(0)), vec![0x44]);
    assert_eq!(serialized(|s| s.serialize_u64(255)), vec![0x53, 255]);
    let mut expected = vec![0x80];
    expected.append(&mut vec![255u8; 8]);
    assert_eq!(serialized(|s| s.serialize_u64(u64::MAX)), expected);
}

#[test]
fn test_char() {
    let val = 'c';
    let mut expected = vec![0x73];
    expected.append(&mut (val as u32).to_be_bytes().to_vec());
    assert_eq!(serialized(|s| s.serialize_char(val)), expected);
}

#[test]
fn test_str() {
    const SMALL_STRING_VALUIE: &str = "Small String";
    const LARGE_STRING_VALUIE: &str = r#"Large String: 
            "The quick brown fox jumps over the lazy dog. 
            "The quick brown fox jumps over the lazy dog. 
            "The quick brown fox jumps over the lazy dog. 
            "The quick brown fox jumps over the lazy dog. 
            "The quick brown fox jumps over the lazy dog. 
            "The quick brown fox jumps over the lazy dog. 
            "The quick brown fox jumps over the lazy dog. 
            "The quick brown fox jumps over the lazy dog."#;

    let val = SMALL_STRING_VALUIE;
    let len = val.len() as u8;
    let mut expected = vec![0xa1, len];
    expected.append(&mut val.as_bytes().to_vec());
    assert_eq!(serialized(|s| s.serialize_str(val).unwrap()), expected);

    let val = LARGE_STRING_VALUIE;
    let len = val.len() as u32;
    let mut expected = vec![0xb1];
    expected.append(&mut len.to_be_bytes().to_vec());
    expected.append(&mut val.as_bytes().to_vec());
    assert_eq!(serialized(|s| s.serialize_str(val).unwrap()), expected);
}

#[test]
fn test_bytes() {
    const SMALL_BYTES_VALUE: &[u8] = &[133u8; 200];
    const LARGE_BYTES_VALUE: &[u8] = &[199u8; 1000];

    let val = SMALL_BYTES_VALUE;
    let len = val.len() as u8;
    let mut expected = vec![0xa0, len];
    expected.append(&mut val.to_vec());
    assert_eq!(serialized(|s| s.serialize_bytes(val).unwrap()), expected);

    let val = LARGE_BYTES_VALUE;
    let len = val.len() as u32;
    let mut expected = vec![0xb0];
    expected.append(&mut len.to_be_bytes().to_vec());
    expected.append(&mut val.to_vec());
    assert_eq!(serialized(|s| s.serialize_bytes(val).unwrap()), expected);
}

#[test]
fn test_none() {
    assert_eq!(serialized(|s| s.serialize_none()), vec![0x40]);
}

#[test]
fn test_some() {
    let expected = serialized(|s| s.serialize_i32(1));
    let val = Some(1i32);
    let got = serialized(|s| match val {
        Some(v) => s.serialize_i32(v),
        None => s.serialize_none(),
    });
    assert_eq!(got, expected);
}

#[test]
fn test_unit() {
    assert_eq!(serialized(|s| s.serialize_unit()), vec![0x40]);
}

#[test]
fn serialize_primitive_matches_typed_methods() {
    let a = serialized(|s| s.serialize_primitive(&Primitive::Long(-129)));
    let b = serialized(|s| s.serialize_i64(-129));
    assert_eq!(a, b);
    assert_eq!(a, vec![0x81, 255, 255, 255, 255, 255, 255, 255, 127]);
}
