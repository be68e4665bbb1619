use fe2o3_amqp::frame::{
    Frame, FrameBody, FrameBodyCodec, FrameCodec, FrameError, ProtocolHeader, ProtocolId,
};

#[test]
fn test_encoding_empty_frame() {
    let empty = Frame::empty();
    let encoder = FrameCodec {};
    let mut dst = Vec::new();
    encoder.encode(&empty, &mut dst).unwrap();
    println!("{:x?}", dst);
    assert_eq!(dst, vec![0, 0, 0, 8, 2, 0, 0, 0]);
}

#[test]
fn test_decode_empty_frame() {
    let decoder = FrameCodec {};
    let src = vec![0x02, 0x00, 0x00, 0x00];
    let frame = decoder.decode_after_size(&src).unwrap();
    println!("{:?}", frame);
    assert_eq!(frame.channel, 0);
    assert!(frame.body.is_empty());
}

#[test]
fn frame_roundtrip_and_size_field() {
    let codec = FrameCodec {};
    let frame = Frame::new(7, vec![1, 2, 3]);
    let mut dst = Vec::new();
    codec.encode(&frame, &mut dst).unwrap();
    assert_eq!(dst, vec![0, 0, 0, 11, 2, 0, 0, 7, 1, 2, 3]);
    dst.push(0xaa);
    let (f, n) = codec.decode(&dst).unwrap().unwrap();
    assert_eq!(n, 11);
    assert_eq!(f.channel, 7);
    assert_eq!(f.body, vec![1, 2, 3]);
    let mut again = Vec::new();
    codec.encode(&f, &mut again).unwrap();
    assert_eq!(&again[..], &dst[..11]);
}

#[test]
fn partial_and_bad_frames() {
    let codec = FrameCodec {};
    assert!(codec.decode(&vec![0, 0]).unwrap().is_none());
    assert!(codec.decode(&vec![0, 0, 0, 12, 2, 0, 0, 0]).unwrap().is_none());
    assert_eq!(codec.decode(&vec![0, 0, 0, 4]).unwrap_err(), FrameError::MalformedFrame);
    assert_eq!(
        codec.decode(&vec![0, 0, 0, 8, 2, 1, 0, 0]).unwrap_err(),
        FrameError::NotAmqpFrame(1)
    );
    assert_eq!(codec.decode(&vec![0, 0, 0, 8, 1, 0, 0, 0]).unwrap_err(), FrameError::MalformedFrame);
    // an extended header is skipped
    let (f, n) = codec.decode(&vec![0, 0, 0, 13, 3, 0, 0, 1, 9, 9, 9, 9, 5]).unwrap().unwrap();
    assert_eq!(n, 13);
    assert_eq!(f.body, vec![5]);
}

#[test]
fn protocol_headers() {
    assert_eq!(ProtocolHeader::amqp().encode(), vec![0x41, 0x4D, 0x51, 0x50, 0, 1, 0, 0]);
    assert_eq!(ProtocolHeader::sasl().encode(), vec![0x41, 0x4D, 0x51, 0x50, 3, 1, 0, 0]);
    assert_eq!(ProtocolHeader::tls().encode(), vec![0x41, 0x4D, 0x51, 0x50, 2, 1, 0, 0]);
    let h = ProtocolHeader::decode(&vec![0x41, 0x4D, 0x51, 0x50, 3, 1, 0, 0]).unwrap();
    assert_eq!(h.id, ProtocolId::Sasl);
    assert!(ProtocolHeader::decode(&vec![0x41, 0x4D]).is_err());
    assert!(ProtocolHeader::decode(&vec![0x48, 0x54, 0x54, 0x50, 0, 1, 0, 0]).is_err());
}

#[test]
fn frame_body_codec() {
    let codec = FrameBodyCodec {};
    assert!(matches!(codec.decode(&Vec::new()).unwrap(), FrameBody::Empty));
    // a close with an empty list
    let body = vec![0x00, 0x53, 0x18, 0x45];
    match codec.decode(&body).unwrap() {
        FrameBody::Performative { code, performative, payload } => {
            assert_eq!(code, 0x18);
            assert_eq!(performative, body);
            assert!(payload.is_none());
        }
        other => panic!("unexpected {:?}", other),
    }
    // a transfer keeps the bytes after it as payload
    let body = vec![0x00, 0x53, 0x14, 0xc0, 0x02, 0x01, 0x43, b'h', b'i'];
    match codec.decode(&body).unwrap() {
        FrameBody::Performative { code, performative, payload } => {
            assert_eq!(code, 0x14);
            assert_eq!(performative, body[..7].to_vec());
            assert_eq!(payload, Some(b"hi".to_vec()));
            let mut out = Vec::new();
            codec.encode(
                &FrameBody::Performative { code, performative, payload },
                &mut out,
            );
            assert_eq!(out, body);
        }
        other => panic!("unexpected {:?}", other),
    }
    assert!(codec.decode(&vec![0x00, 0x53, 0x70, 0x45]).is_err());
}
