use fe2o3_amqp::codec::{decode_primitive, Primitive};
use fe2o3_amqp::definitions::Symbol;
use fe2o3_amqp::error::{
    detach_error_expecting_frame, AmqpError, AttachError, ConnectionError, DetachError, Error,
    ErrorCondition, LinkError, SendError, SessionError,
};

#[test]
fn test_serde_error_condition() {
    let mut sym_val = "amqp:decode-error".as_bytes().to_vec();
    let mut buf = vec![0xa3, sym_val.len() as u8];
    buf.append(&mut sym_val);
    let (p, _) = decode_primitive(&buf, 0).unwrap();
    let sym = match p {
        Primitive::Symbol(b) => String::from_utf8(b).unwrap(),
        other => panic!("unexpected {:?}", other),
    };
    let deserialized = ErrorCondition::from_symbol(&sym);
    assert!(matches!(deserialized, ErrorCondition::AmqpError(AmqpError::DecodeError)));
}

#[test]
fn condition_symbols() {
    assert_eq!(
        ErrorCondition::connection_error(ConnectionError::FramingError).to_symbol(),
        "amqp:connection:framing-error"
    );
    assert_eq!(
        ErrorCondition::session_error(SessionError::WindowViolation).to_symbol(),
        "amqp:session:window-violation"
    );
    assert_eq!(
        ErrorCondition::link_error(LinkError::MessageSizeExceeded).to_symbol(),
        "amqp:link:message-size-exceeded"
    );
    assert_eq!(
        ErrorCondition::amqp_error(AmqpError::ResourceLimitExceeded).to_symbol(),
        "amqp:resource-limit-exceeded"
    );
    let c = ErrorCondition::from_symbol(&"amqp:session:handle-in-use".to_string());
    assert!(matches!(c, ErrorCondition::SessionError(SessionError::HandleInUse)));
    let c = ErrorCondition::from_symbol(&"com:vendor:oops".to_string());
    match &c {
        ErrorCondition::Custom(s) => assert_eq!(s.0, "com:vendor:oops"),
        other => panic!("unexpected {:?}", other),
    }
    assert_eq!(c.to_symbol(), "com:vendor:oops");
    let custom = ErrorCondition::custom(Symbol::new("x:y".to_string()));
    assert_eq!(custom.to_symbol(), "x:y");
}

#[test]
fn detach_and_send_errors() {
    let d = detach_error_expecting_frame();
    assert!(!d.is_closed_by_remote());
    assert!(matches!(d.error_condition(), Some(ErrorCondition::AmqpError(AmqpError::IllegalState))));
    let e = d.into_error().unwrap();
    assert_eq!(e.description, Some("Expecting remote detach frame".to_string()));

    let d = DetachError::new(true, None);
    assert!(d.is_closed_by_remote());
    assert!(d.error_condition().is_none());

    match SendError::not_allowed(Some("no".to_string())) {
        SendError::Local(Error { condition: ErrorCondition::AmqpError(AmqpError::NotAllowed), description }) => {
            assert_eq!(description, Some("no".to_string()))
        }
        other => panic!("unexpected {:?}", other),
    }
    assert!(matches!(
        SendError::not_implemented(None),
        SendError::Local(Error { condition: ErrorCondition::AmqpError(AmqpError::NotImplemented), .. })
    ));
    assert!(matches!(
        SendError::expecting_outcome(),
        SendError::Local(Error { condition: ErrorCondition::AmqpError(AmqpError::NotImplemented), .. })
    ));
    assert!(matches!(
        SendError::mismatched_transaction_id(&vec![1], &vec![2]),
        SendError::Local(Error { condition: ErrorCondition::AmqpError(AmqpError::NotImplemented), .. })
    ));
    assert!(matches!(
        AttachError::illegal_state(None),
        AttachError::Local(Error { condition: ErrorCondition::AmqpError(AmqpError::IllegalState), .. })
    ));
    assert!(matches!(
        AttachError::not_implemented(None),
        AttachError::Local(Error { condition: ErrorCondition::AmqpError(AmqpError::NotImplemented), .. })
    ));
    assert!(matches!(
        AttachError::not_allowed(None),
        AttachError::Local(Error { condition: ErrorCondition::AmqpError(AmqpError::NotAllowed), .. })
    ));
    let sym = Symbol::new("s".to_string());
    assert_eq!(sym.into_inner(), "s");
}
