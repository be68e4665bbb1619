use fe2o3_amqp::codec::{Compound, Primitive, Serializer};
use fe2o3_amqp::connection::{ChannelMax, Connection, ConnectionState, MaxFrameSize, Open};
use fe2o3_amqp::error::{AllocSessionError, ConnectionError};
use fe2o3_amqp::connection::ConnectionStateError;
use fe2o3_amqp::frame::{Frame, FrameBody, FrameBodyCodec, FrameCodec, ProtocolHeader};

fn open(container_id: &str, max_frame_size: u32, channel_max: u16) -> Open {
    Open {
        container_id: container_id.to_string(),
        hostname: None,
        max_frame_size: MaxFrameSize::from(max_frame_size),
        channel_max: ChannelMax::from(channel_max),
        idle_time_out: None,
        outgoing_locales: None,
        incoming_locales: None,
        offered_capabilities: None,
        desired_capabilities: None,
        properties: None,
    }
}

fn open_body(container_id: &str, max_frame_size: u32, channel_max: u16) -> Vec<u8> {
    let mut fields = Compound::new(4);
    fields.serialize_element(&Primitive::String(container_id.as_bytes().to_vec()));
    fields.serialize_element(&Primitive::Null);
    fields.serialize_element(&Primitive::Uint(max_frame_size));
    fields.serialize_element(&Primitive::Ushort(channel_max));
    let mut se = Serializer::new(vec![0x00]);
    se.serialize_u64(0x10);
    fields.end(&mut se).unwrap();
    se.into_inner()
}

#[test]
fn open_close_happy_path() {
    let local = open("c1", 65536, 255);
    let mut c = Connection::new("c1".to_string(), None, &local);
    let mut trajectory = vec![c.local_state];

    let header = ProtocolHeader::amqp().encode();
    assert_eq!(header, vec![0x41, 0x4D, 0x51, 0x50, 0x00, 0x01, 0x00, 0x00]);
    c.on_header_sent().unwrap();
    trajectory.push(c.local_state);
    let received = ProtocolHeader::decode(&header).unwrap();
    c.on_header_received(&received).unwrap();
    trajectory.push(c.local_state);

    let body = open_body("c1", 65536, 255);
    let mut wire = Vec::new();
    let codec = FrameCodec {};
    codec.encode(&Frame::new(0, body.clone()), &mut wire).unwrap();
    let (frame, n) = codec.decode(&wire).unwrap().unwrap();
    assert_eq!(n, wire.len());
    let body_codec = FrameBodyCodec {};
    match body_codec.decode(&frame.body).unwrap() {
        FrameBody::Performative { code, .. } => assert_eq!(code, 0x10),
        other => panic!("unexpected {:?}", other),
    }
    c.on_open_sent().unwrap();
    trajectory.push(c.local_state);
    c.on_incoming_open(&open("broker", 1 << 20, 1023)).unwrap();
    trajectory.push(c.local_state);
    assert_eq!(c.max_frame_size, 65536);
    assert_eq!(c.channel_max, 255);

    c.on_close_sent().unwrap();
    trajectory.push(c.local_state);
    c.on_incoming_close().unwrap();
    trajectory.push(c.local_state);
    assert_eq!(
        trajectory,
        vec![
            ConnectionState::Start,
            ConnectionState::HeaderSent,
            ConnectionState::HeaderExchanged,
            ConnectionState::OpenSent,
            ConnectionState::Opened,
            ConnectionState::CloseSent,
            ConnectionState::End,
        ]
    );
}

#[test]
fn mismatched_header_is_refused() {
    let mut c = Connection::new("c".to_string(), None, &open("c", 512, 1));
    c.on_header_sent().unwrap();
    assert_eq!(
        c.on_header_received(&ProtocolHeader::sasl()),
        Err(ConnectionStateError::ProtocolHeaderMismatch)
    );
    assert_eq!(c.local_state, ConnectionState::HeaderSent);
    assert_eq!(c.on_incoming_close(), Err(ConnectionStateError::IllegalState));
}

fn opened(channel_max: u16) -> Connection {
    let mut c = Connection::new("c".to_string(), None, &open("c", 512, channel_max));
    c.on_header_sent().unwrap();
    c.on_header_received(&ProtocolHeader::amqp()).unwrap();
    c.on_open_sent().unwrap();
    let mut remote = open("p", 4096, u16::MAX);
    remote.idle_time_out = Some(30000);
    c.on_incoming_open(&remote).unwrap();
    c
}

#[test]
fn channels_and_routing() {
    let mut c = opened(1);
    assert_eq!(c.allocate_session(), Ok(0));
    assert_eq!(c.allocate_session(), Ok(1));
    assert_eq!(c.allocate_session(), Err(AllocSessionError::ChannelMaxReached));
    c.on_incoming_begin(5, 1).unwrap();
    assert_eq!(c.route_incoming(5), Ok(1));
    assert_eq!(
        c.route_incoming(6),
        Err(ConnectionStateError::Connection(ConnectionError::FramingError))
    );
    let fresh = Connection::new("c".to_string(), None, &open("c", 512, 1));
    let mut fresh = fresh;
    assert_eq!(fresh.allocate_session(), Err(AllocSessionError::IllegalState));
}

#[test]
fn limits_and_idle_timeout() {
    let mut c = opened(3);
    assert_eq!(c.max_frame_size, 512);
    assert!(c.frame_fits(512));
    assert!(!c.frame_fits(513));
    assert_eq!(c.heartbeat_interval(), Some(15000));
    assert!(!c.idle_timeout_elapsed(1_000_000));
    c.local_idle_time_out = Some(100);
    assert!(c.idle_timeout_elapsed(101));
    assert!(!c.idle_timeout_elapsed(100));
    assert_eq!(MaxFrameSize::default().0, u32::MAX);
    assert_eq!(ChannelMax::default().0, u16::MAX);
    c.on_close_sent().unwrap();
    assert_eq!(c.local_state, ConnectionState::CloseSent);
}

#[test]
fn open_performative_roundtrip() {
    let mut local = open("c1", 65536, 255);
    local.hostname = Some("broker.example".to_string());
    local.idle_time_out = Some(30000);
    let bytes = local.encode_performative().unwrap();
    assert_eq!(&bytes[..3], &[0x00, 0x53, 0x10]);
    let peer = fe2o3_amqp::connection::decode_open(&bytes).unwrap();
    assert_eq!(peer.container_id, b"c1".to_vec());
    assert_eq!(peer.hostname, Some(b"broker.example".to_vec()));
    assert_eq!(peer.max_frame_size, 65536);
    assert_eq!(peer.channel_max, 255);
    assert_eq!(peer.idle_time_out, Some(30000));

    // absent fields take their defaults
    let short = open_body("p", 1024, 3);
    let mut only_id = vec![0x00, 0x53, 0x10, 0xc0, 0x04, 0x01, 0xa1, 0x01, b'p'];
    let peer = fe2o3_amqp::connection::decode_open(&only_id).unwrap();
    assert_eq!(peer.max_frame_size, u32::MAX);
    assert_eq!(peer.channel_max, u16::MAX);
    assert!(peer.hostname.is_none());
    let peer = fe2o3_amqp::connection::decode_open(&short).unwrap();
    assert_eq!(peer.max_frame_size, 1024);
    only_id[6] = 0x52;
    assert!(fe2o3_amqp::connection::decode_open(&only_id).is_err());
    assert_eq!(fe2o3_amqp::connection::encode_close(), vec![0x00, 0x53, 0x18, 0x45]);

    let mut c = Connection::new("c1".to_string(), None, &local);
    c.on_header_sent().unwrap();
    c.on_header_received(&ProtocolHeader::amqp()).unwrap();
    c.on_open_sent().unwrap();
    c.on_incoming_peer_open(&peer).unwrap();
    assert_eq!(c.local_state, ConnectionState::Opened);
    assert_eq!(c.max_frame_size, 1024);
    assert_eq!(c.channel_max, 3);
}

#[test]
fn idle_timeout_closes_with_resource_limit() {
    let mut local = open("c", 512, 1);
    local.idle_time_out = Some(1000);
    let c = Connection::new("c".to_string(), None, &local);
    assert!(c.idle_timeout_error(1000).is_none());
    assert!(matches!(
        c.idle_timeout_error(1001),
        Some(fe2o3_amqp::error::ErrorCondition::AmqpError(fe2o3_amqp::error::AmqpError::ResourceLimitExceeded))
    ));
}

#[test]
fn test_encoding_frame_body() {
    let local = open("c1", 65536, 255);
    let body = local.encode_performative().unwrap();
    assert_eq!(
        body,
        vec![0x00, 0x53, 0x10, 0xc0, 0x0e, 0x04, 0xa1, 0x02, 0x63, 0x31, 0x40, 0x70, 0x00, 0x01, 0x00, 0x00, 0x60, 0x00, 0xff]
    );
    let codec = FrameBodyCodec {};
    match codec.decode(&body).unwrap() {
        FrameBody::Performative { code, performative, payload } => {
            assert_eq!(code, 0x10);
            assert!(payload.is_none());
            let peer = fe2o3_amqp::connection::decode_open(&performative).unwrap();
            assert_eq!(peer.container_id, b"c1".to_vec());
            assert_eq!(peer.max_frame_size, 65536);
            assert_eq!(peer.channel_max, 255);
        }
        other => panic!("unexpected {:?}", other),
    }
    let mut with_caps = open("c1", 65536, 255);
    with_caps.offered_capabilities = Some(vec![fe2o3_amqp::definitions::Symbol::new("ab".to_string())]);
    let bytes = with_caps.encode_performative().unwrap();
    // null hostname and idle timeout, null outgoing and incoming locales, then the array
    assert_eq!(
        &bytes[16..],
        &[0x60, 0x00, 0xff, 0x40, 0x40, 0x40, 0xe0, 0x05, 0x01, 0xa3, 0x02, b'a', b'b']
    );
    assert_eq!(bytes[5], 8);
}
