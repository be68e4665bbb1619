use fe2o3_amqp::codec::{Compound, Primitive, Serializer};
use fe2o3_amqp::message::{decode_message, Body, DecodeIntoMessage, Message};

#[test]
fn test_decoding_message_with_no_body_section() {
    let buf: [u8; 8] = [0x0, 0x53, 0x70, 0x45, 0x0, 0x53, 0x73, 0x45];
    let result = decode_message(&buf.to_vec());
    assert!(result.is_ok());
    let message = result.unwrap();
    println!("{:?}", message);
}

#[test]
fn test_decode_message_using_reader() {
    let buf = &[
        0x0, 0x53, 0x70, 0xc0, 0xb, 0x5, 0x40, 0x40, 0x70, 0x48, 0x19, 0x8, 0x0, 0x40, 0x52,
        0x3, 0x0, 0x53, 0x71, 0xc1, 0x24, 0x2, 0xa3, 0x10, 0x78, 0x2d, 0x6f, 0x70, 0x74, 0x2d,
        0x6c, 0x6f, 0x63, 0x6b, 0x2d, 0x74, 0x6f, 0x6b, 0x65, 0x6e, 0x98, 0xf4, 0xde, 0x71,
        0x99, 0x9f, 0x58, 0x41, 0x4e, 0xb6, 0x85, 0xd4, 0x27, 0x82, 0x92, 0x8f, 0xd0, 0x0,
        0x53, 0x72, 0xc1, 0x6c, 0x8, 0xa3, 0x13, 0x78, 0x2d, 0x6f, 0x70, 0x74, 0x2d, 0x65,
        0x6e, 0x71, 0x75, 0x65, 0x75, 0x65, 0x64, 0x2d, 0x74, 0x69, 0x6d, 0x65, 0x83, 0x0, 0x0,
        0x1, 0x82, 0x58, 0xd3, 0xcb, 0x78, 0xa3, 0x15, 0x78, 0x2d, 0x6f, 0x70, 0x74, 0x2d,
        0x73, 0x65, 0x71, 0x75, 0x65, 0x6e, 0x63, 0x65, 0x2d, 0x6e, 0x75, 0x6d, 0x62, 0x65,
        0x72, 0x55, 0x31, 0xa3, 0x12, 0x78, 0x2d, 0x6f, 0x70, 0x74, 0x2d, 0x6c, 0x6f, 0x63,
        0x6b, 0x65, 0x64, 0x2d, 0x75, 0x6e, 0x74, 0x69, 0x6c, 0x83, 0x0, 0x0, 0x1, 0x82, 0x58,
        0xdf, 0x5c, 0xf8, 0xa3, 0x13, 0x78, 0x2d, 0x6f, 0x70, 0x74, 0x2d, 0x6d, 0x65, 0x73,
        0x73, 0x61, 0x67, 0x65, 0x2d, 0x73, 0x74, 0x61, 0x74, 0x65, 0x54, 0x0, 0x0, 0x53, 0x73,
        0xc0, 0x2c, 0xd, 0xa1, 0xd, 0x41, 0x6d, 0x71, 0x70, 0x4e, 0x65, 0x74, 0x4c, 0x69, 0x74,
        0x65, 0x2d, 0x31, 0x40, 0x40, 0x40, 0x40, 0x40, 0x40, 0x40, 0x83, 0x0, 0x0, 0x1, 0x82,
        0xa0, 0xec, 0xd3, 0x78, 0x83, 0x0, 0x0, 0x1, 0x82, 0x58, 0xd3, 0xcb, 0x78, 0x40, 0x40,
        0x40, 0x0, 0x53, 0x75, 0xa0, 0xa, 0x6d, 0x65, 0x73, 0x73, 0x61, 0x67, 0x65, 0x20, 0x23,
        0x31,
    ];
    let result = Message::decode_into_message(&buf.to_vec());
    assert!(result.is_ok());
    let message = result.unwrap();
    assert!(matches!(message.body, Body::Data(_)));
}

#[test]
fn decoded_sections_land_in_their_fields() {
    let buf = vec![0x0, 0x53, 0x70, 0x45, 0x0, 0x53, 0x73, 0x45];
    let m = decode_message(&buf).unwrap();
    assert_eq!(m.header, Some(vec![0x45]));
    assert_eq!(m.properties, Some(vec![0x45]));
    assert!(m.delivery_annotations.is_none());
    assert!(matches!(m.body, Body::Nothing));
    assert_eq!(m.sections(), 3);
    assert_eq!(m.last_section_code(), 0x77);

    let data = vec![0x0, 0x53, 0x75, 0xa0, 0x2, b'h', b'i', 0x0, 0x53, 0x78, 0xc1, 0x1, 0x0];
    let m = decode_message(&data).unwrap();
    match &m.body {
        Body::Data(b) => assert_eq!(b, &b"hi".to_vec()),
        other => panic!("unexpected {:?}", other),
    }
    assert_eq!(m.footer, Some(vec![0xc1, 0x1, 0x0]));
    assert_eq!(m.last_section_code(), 0x78);
}

#[test]
fn symbolic_section_descriptor() {
    let mut buf = vec![0x0, 0xa3, 16];
    buf.extend_from_slice(b"amqp:header:list");
    buf.push(0x45);
    let m = decode_message(&buf).unwrap();
    assert_eq!(m.header, Some(vec![0x45]));
}

#[test]
fn unknown_section_is_refused() {
    let buf = vec![0x0, 0x53, 0x10, 0x45];
    assert!(decode_message(&buf).is_err());
}

#[test]
fn builder_sets_sections() {
    let m = Message::builder()
        .header(Some(vec![0x45]))
        .data(b"hi".to_vec())
        .footer(Some(vec![0xc1, 1, 0]))
        .build();
    assert_eq!(m.sections(), 3);
    assert_eq!(m.last_section_code(), 0x78);
    assert!(matches!(m.body, Body::Data(_)));
}

#[test]
fn encoded_message_decodes_back() {
    let m = Message::builder()
        .header(Some(vec![0x45]))
        .application_properties(Some(vec![0xc1, 1, 0]))
        .data(b"payload".to_vec())
        .footer(Some(vec![0xc1, 1, 0]))
        .build();
    let bytes = m.encode();
    assert_eq!(&bytes[..4], &[0x00, 0x53, 0x70, 0x45]);
    let back = decode_message(&bytes).unwrap();
    assert_eq!(back.header, Some(vec![0x45]));
    assert_eq!(back.application_properties, Some(vec![0xc1, 1, 0]));
    assert_eq!(back.footer, Some(vec![0xc1, 1, 0]));
    match back.body {
        Body::Data(b) => assert_eq!(b, b"payload".to_vec()),
        other => panic!("unexpected {:?}", other),
    }
    let v = Message::from_body(Body::Value(vec![0x41]));
    assert_eq!(v.encode(), vec![0x00, 0x53, 0x77, 0x41]);
}

#[test]
fn last_section_code_follows_the_body() {
    assert_eq!(Message::builder().data(vec![1]).build().last_section_code(), 0x75);
    assert_eq!(Message::builder().sequence(vec![0x45]).build().last_section_code(), 0x76);
    assert_eq!(Message::builder().value(vec![0x40]).build().last_section_code(), 0x77);
}

fn map_of(entries: Vec<(Primitive, Primitive)>) -> Vec<u8> {
    let mut c = Compound::new(entries.len() * 2);
    for (k, v) in entries.iter() {
        c.serialize_element(k);
        c.serialize_element(v);
    }
    let mut se = Serializer::new(Vec::new());
    c.end_map(&mut se).unwrap();
    se.into_inner()
}

fn list_of(items: Vec<Primitive>) -> Vec<u8> {
    let mut c = Compound::new(items.len());
    for p in items.iter() {
        c.serialize_element(p);
    }
    let mut se = Serializer::new(Vec::new());
    c.end(&mut se).unwrap();
    se.into_inner()
}

#[test]
fn test_serialize_deserialize_null() {
    let body = Message::from_body(Body::Value(vec![0x40]));
    let buf = body.encode();
    println!("{:#x?}", buf);
    let body2 = decode_message(&buf).unwrap();
    println!("{:?}", body2.body);
    assert!(matches!(body2.body, Body::Value(ref v) if v == &vec![0x40]));
}

#[test]
fn test_serialize_deserialize_body() {
    let body = Message::from_body(Body::Data(b"amqp".to_vec()));
    let serialized = body.encode();
    println!("{:x?}", serialized);
    let field = decode_message(&serialized).unwrap();
    println!("{:?}", field);
    assert!(matches!(field.body, Body::Data(ref d) if d == &b"amqp".to_vec()));

    let body = Message::from_body(Body::Sequence(list_of(vec![Primitive::Bool(true)])));
    let serialized = body.encode();
    println!("{:x?}", serialized);
    let field = decode_message(&serialized).unwrap();
    println!("{:?}", field);
    assert!(matches!(field.body, Body::Sequence(ref s) if s == &vec![0xc0, 0x02, 0x01, 0x41]));

    let body = Message::from_body(Body::Value(vec![0x41]));
    let serialized = body.encode();
    println!("{:x?}", serialized);
    let field = decode_message(&serialized).unwrap();
    println!("{:?}", field);
    assert!(matches!(field.body, Body::Value(ref v) if v == &vec![0x41]));
}

#[test]
fn test_serialize_message() {
    // a header whose only field is durable = true
    let message = Message::builder()
        .header(Some(list_of(vec![Primitive::Bool(true)])))
        .value(vec![0x41])
        .build();
    let buf = message.encode();
    println!("{:x?}", buf);
    assert_eq!(buf, vec![0x00, 0x53, 0x70, 0xc0, 0x02, 0x01, 0x41, 0x00, 0x53, 0x77, 0x41]);
}

#[test]
fn test_serialize_deserialize_message() {
    let message = Message::builder()
        .header(Some(list_of(vec![Primitive::Bool(true)])))
        .delivery_annotations(Some(map_of(vec![(Primitive::Symbol(b"key".to_vec()), Primitive::Uint(1))])))
        .message_annotations(Some(map_of(vec![(
            Primitive::Symbol(b"key2".to_vec()),
            Primitive::String(b"v".to_vec()),
        )])))
        .properties(Some(list_of(vec![Primitive::Ulong(1)])))
        .application_properties(Some(map_of(vec![(Primitive::String(b"sn".to_vec()), Primitive::Int(1))])))
        .value(vec![0x41])
        .build();
    let buf = message.encode();
    let deserialized = decode_message(&buf).unwrap();
    assert!(deserialized.header.is_some());
    assert!(deserialized.delivery_annotations.is_some());
    assert!(deserialized.message_annotations.is_some());
    assert!(deserialized.properties.is_some());
    assert!(deserialized.application_properties.is_some());
    assert!(matches!(deserialized.body, Body::Value(ref v) if v == &vec![0x41]));
    assert!(deserialized.footer.is_none());
}
