use fe2o3_amqp::codec::{
    decode_list, decode_map, ListItem, decode_primitive, encode_primitive, value_width, write_map, write_seq, Compound, DecodeError,
    Primitive, Serializer, VariantSerializer,
};

fn roundtrip(p: Primitive) -> Primitive {
    let mut buf = Vec::new();
    encode_primitive(&mut buf, &p);
    buf.push(0xff);
    let (q, n) = decode_primitive(&buf, 0).unwrap();
    assert_eq!(n, buf.len() - 1);
    q
}

#[test]
fn decode_of_encode_gives_value_back() {
    assert!(matches!(roundtrip(Primitive::Null), Primitive::Null));
    assert!(matches!(roundtrip(Primitive::Bool(true)), Primitive::Bool(true)));
    assert!(matches!(roundtrip(Primitive::Ubyte(7)), Primitive::Ubyte(7)));
    assert!(matches!(roundtrip(Primitive::Ushort(513)), Primitive::Ushort(513)));
    assert!(matches!(roundtrip(Primitive::Uint(0)), Primitive::Uint(0)));
    assert!(matches!(roundtrip(Primitive::Uint(200)), Primitive::Uint(200)));
    assert!(matches!(roundtrip(Primitive::Uint(70000)), Primitive::Uint(70000)));
    assert!(matches!(roundtrip(Primitive::Ulong(u64::MAX)), Primitive::Ulong(u64::MAX)));
    assert!(matches!(roundtrip(Primitive::Byte(-5)), Primitive::Byte(-5)));
    assert!(matches!(roundtrip(Primitive::Short(-300)), Primitive::Short(-300)));
    assert!(matches!(roundtrip(Primitive::Int(-128)), Primitive::Int(-128)));
    assert!(matches!(roundtrip(Primitive::Int(-129)), Primitive::Int(-129)));
    assert!(matches!(roundtrip(Primitive::Long(i64::MIN)), Primitive::Long(i64::MIN)));
    assert!(matches!(roundtrip(Primitive::Char(0x1F600)), Primitive::Char(0x1F600)));
    assert!(matches!(roundtrip(Primitive::Timestamp(-1)), Primitive::Timestamp(-1)));
    match roundtrip(Primitive::String(b"hello".to_vec())) {
        Primitive::String(b) => assert_eq!(b, b"hello".to_vec()),
        other => panic!("unexpected {:?}", other),
    }
    match roundtrip(Primitive::Binary(vec![9u8; 300])) {
        Primitive::Binary(b) => assert_eq!(b, vec![9u8; 300]),
        other => panic!("unexpected {:?}", other),
    }
    match roundtrip(Primitive::Symbol(b"amqp:accepted:list".to_vec())) {
        Primitive::Symbol(b) => assert_eq!(b, b"amqp:accepted:list".to_vec()),
        other => panic!("unexpected {:?}", other),
    }
}

#[test]
fn compact_forms_are_chosen() {
    let mut buf = Vec::new();
    encode_primitive(&mut buf, &Primitive::Int(127));
    assert_eq!(buf, vec![0x54, 127]);
    let mut buf = Vec::new();
    encode_primitive(&mut buf, &Primitive::Int(128));
    assert_eq!(buf, vec![0x71, 0, 0, 0, 128]);
    let mut buf = Vec::new();
    encode_primitive(&mut buf, &Primitive::Long(-128));
    assert_eq!(buf, vec![0x55, 0x80]);
    let mut buf = Vec::new();
    encode_primitive(&mut buf, &Primitive::Ulong(256));
    assert_eq!(buf, vec![0x80, 0, 0, 0, 0, 0, 0, 1, 0]);
}

#[test]
fn truncated_input_needs_more() {
    let buf = vec![0x70, 0, 0];
    assert_eq!(decode_primitive(&buf, 0).unwrap_err(), DecodeError::NeedMore);
    let buf = vec![0xa1, 5, b'a'];
    assert_eq!(decode_primitive(&buf, 0).unwrap_err(), DecodeError::NeedMore);
    let buf: Vec<u8> = vec![];
    assert_eq!(decode_primitive(&buf, 0).unwrap_err(), DecodeError::NeedMore);
    let buf = vec![0x56, 2];
    assert_eq!(decode_primitive(&buf, 0).unwrap_err(), DecodeError::InvalidValue);
    let buf = vec![0x01];
    assert_eq!(decode_primitive(&buf, 0).unwrap_err(), DecodeError::InvalidFormatCode(0x01));
}

#[test]
fn empty_list_is_list0() {
    let mut out = Vec::new();
    write_seq(&mut out, 0, &Vec::new()).unwrap();
    assert_eq!(out, vec![0x45]);
}

#[test]
fn list8_up_to_size_255_then_list32() {
    // 254 element bytes: size field 255, still the one-byte form
    let body = vec![0x40u8; 254];
    let mut out = Vec::new();
    write_seq(&mut out, 254, &body).unwrap();
    assert_eq!(&out[..3], &[0xc0, 255, 254]);
    assert_eq!(out.len(), 3 + 254);

    // 255 element bytes: size 256 does not fit a byte
    let body = vec![0x40u8; 255];
    let mut out = Vec::new();
    write_seq(&mut out, 255, &body).unwrap();
    assert_eq!(&out[..9], &[0xd0, 0, 0, 1, 3, 0, 0, 0, 255]);
    assert_eq!(out.len(), 9 + 255);
}

#[test]
fn map_framing() {
    let mut body = Vec::new();
    encode_primitive(&mut body, &Primitive::Symbol(b"k".to_vec()));
    encode_primitive(&mut body, &Primitive::Uint(1));
    let mut out = Vec::new();
    write_map(&mut out, 2, &body).unwrap();
    assert_eq!(out, vec![0xc1, 6, 2, 0xa3, 1, b'k', 0x52, 1]);
    let mut out = Vec::new();
    write_map(&mut out, 0, &Vec::new()).unwrap();
    assert_eq!(out, vec![0xc1, 1, 0]);
}

#[test]
fn compound_collects_elements() {
    let mut c = Compound::new(2);
    c.serialize_element(&Primitive::Bool(true));
    c.serialize_element(&Primitive::Null);
    let mut se = Serializer::new(Vec::new());
    c.end(&mut se).unwrap();
    assert_eq!(se.into_inner(), vec![0xc0, 3, 2, 0x41, 0x40]);
}

#[test]
fn variant_is_a_one_entry_map() {
    let mut v = VariantSerializer::new("A", 0, 1);
    v.serialize_field(&Primitive::Ubyte(3));
    let mut se = Serializer::new(Vec::new());
    v.end(&mut se).unwrap();
    assert_eq!(
        se.into_inner(),
        vec![0xc1, 9, 2, 0xa1, 1, b'A', 0xc0, 3, 1, 0x50, 3]
    );
}

#[test]
fn value_width_reads_categories() {
    let buf = vec![0x00, 0x53, 0x70, 0xc0, 0x02, 0x01, 0x40, 0xff];
    assert_eq!(value_width(&buf, 0).unwrap(), 7);
    let buf = vec![0x98, 0, 0, 0, 0, 0, 0, 0, 0, 0, 0, 0, 0, 0, 0, 0, 0];
    assert_eq!(value_width(&buf, 0).unwrap(), 17);
    let buf = vec![0xb0, 0, 0, 0, 2, 1];
    assert_eq!(value_width(&buf, 0).unwrap_err(), DecodeError::NeedMore);
}

#[test]
fn lists_and_maps_decode() {
    let buf = vec![0xc0, 0x05, 0x03, 0x41, 0x40, 0x52, 0x07, 0x99];
    let (items, n) = decode_list(&buf, 0).unwrap();
    assert_eq!(n, 7);
    assert_eq!(items.len(), 3);
    assert!(matches!(items[0], ListItem::Primitive(Primitive::Bool(true))));
    assert!(matches!(items[1], ListItem::Primitive(Primitive::Null)));
    assert!(matches!(items[2], ListItem::Primitive(Primitive::Uint(7))));
    let (items, n) = decode_list(&vec![0x45], 0).unwrap();
    assert!(items.is_empty());
    assert_eq!(n, 1);
    // a nested list stays encoded
    let buf = vec![0xc0, 0x04, 0x01, 0xc0, 0x01, 0x00];
    let (items, _) = decode_list(&buf, 0).unwrap();
    match &items[0] {
        ListItem::Encoded(b) => assert_eq!(b, &vec![0xc0, 0x01, 0x00]),
        other => panic!("unexpected {:?}", other),
    }
    // the count says more elements than the size holds
    assert!(decode_list(&vec![0xc0, 0x02, 0x02, 0x40], 0).is_err());

    let map = vec![0xc1, 0x08, 0x04, 0xa3, 0x01, b'a', 0x41, 0x52, 0x02, 0x40];
    let (pairs, n) = decode_map(&map, 0).unwrap();
    assert_eq!(n, 10);
    assert_eq!(pairs.len(), 2);
    assert!(matches!(&pairs[0].0, ListItem::Primitive(Primitive::Symbol(k)) if k == &b"a".to_vec()));
    let dup = vec![0xc1, 0x09, 0x04, 0xa3, 0x01, b'a', 0x41, 0xa3, 0x01, b'a', 0x42];
    assert_eq!(decode_map(&dup, 0).unwrap_err(), DecodeError::DuplicateKey);
    let odd = vec![0xc1, 0x02, 0x01, 0x40];
    assert_eq!(decode_map(&odd, 0).unwrap_err(), DecodeError::InvalidValue);
}
