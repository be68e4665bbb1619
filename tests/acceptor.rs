use fe2o3_amqp::acceptor::{CreditMode, LinkAcceptorError, LocalReceiverLinkAcceptor, SupportedReceiverSettleModes};
use fe2o3_amqp::connection::{ChannelMax, Connection, MaxFrameSize, Open};
use fe2o3_amqp::definitions::{
    Coordinator, ReceiverSettleMode, Role, SenderSettleMode, Source, Target, TargetArchetype,
    TerminusDurability, TerminusExpiryPolicy,
};
use fe2o3_amqp::error::{AllocLinkError, AllocSessionError, AmqpError, ErrorCondition};
use fe2o3_amqp::frame::ProtocolHeader;
use fe2o3_amqp::link::{handle_attach_error, Attach, AttachErrorAction, LinkState, SenderAttachError};
use fe2o3_amqp::session::{AttachRoute, Begin, Builder, Session, SessionAcceptor, SessionState};
use fe2o3_amqp::transaction::{route_incoming_attach, AttachDestination};

fn terminus_target(addr: &str) -> Target {
    Target {
        address: Some(addr.to_string()),
        durable: TerminusDurability::NoDurability,
        expiry_policy: TerminusExpiryPolicy::SessionEnd,
        timeout: 0,
        dynamic: false,
        capabilities: None,
    }
}

fn sender_attach(name: &str, handle: u32, rcv: ReceiverSettleMode) -> Attach {
    Attach {
        name: name.to_string(),
        handle,
        role: Role::Sender,
        snd_settle_mode: SenderSettleMode::Mixed,
        rcv_settle_mode: rcv,
        source: Some(Source {
            address: Some("out".to_string()),
            durable: TerminusDurability::NoDurability,
            expiry_policy: TerminusExpiryPolicy::SessionEnd,
            timeout: 0,
            dynamic: false,
            filter: None,
            capabilities: None,
        }),
        target: Some(TargetArchetype::Target(terminus_target("q"))),
        unsettled: None,
        incomplete_unsettled: false,
        initial_delivery_count: Some(3),
        max_message_size: Some(0),
    }
}

fn opened_connection() -> Connection {
    let open = Open {
        container_id: "c".to_string(),
        hostname: None,
        max_frame_size: MaxFrameSize::from(4096),
        channel_max: ChannelMax::from(7),
        idle_time_out: None,
        outgoing_locales: None,
        incoming_locales: None,
        offered_capabilities: None,
        desired_capabilities: None,
        properties: None,
    };
    let mut c = Connection::new("c".to_string(), None, &open);
    c.on_header_sent().unwrap();
    c.on_header_received(&ProtocolHeader::amqp()).unwrap();
    c.on_open_sent().unwrap();
    c.on_incoming_open(&open).unwrap();
    c
}

fn mapped_session() -> Session {
    let mut conn = opened_connection();
    let (mut s, _) = Builder::new().begin(&mut conn).unwrap();
    s.on_incoming_begin(
        0,
        &Begin { remote_channel: Some(0), next_outgoing_id: 0, incoming_window: 10, outgoing_window: 10, handle_max: 9 },
    )
    .unwrap();
    s
}

#[test]
fn accept_incoming_receiver() {
    let mut session = mapped_session();
    let acceptor = LocalReceiverLinkAcceptor::default();
    let (link, answer, flow) = acceptor
        .accept_incoming_attach(sender_attach("in", 4, ReceiverSettleMode::Second), &mut session)
        .unwrap();
    assert_eq!(link.name, "in");
    assert_eq!(link.output_handle, Some(0));
    assert_eq!(link.input_handle, Some(4));
    assert_eq!(link.local_state, LinkState::Attached);
    assert_eq!(link.rcv_settle_mode, ReceiverSettleMode::Second);
    assert_eq!(link.snd_settle_mode, SenderSettleMode::Mixed);
    assert_eq!(link.flow_state.delivery_count, 3);
    assert_eq!(flow.unwrap().link_credit, Some(200));
    assert_eq!(answer.name, "in");
    assert_eq!(answer.handle, 0);
    assert_eq!(answer.role, Role::Receiver);
    assert!(answer.initial_delivery_count.is_none());
    assert_eq!(answer.source.as_ref().unwrap().address, Some("out".to_string()));
    match &link.target {
        Some(TargetArchetype::Target(t)) => assert_eq!(t.address, Some("q".to_string())),
        other => panic!("unexpected {:?}", other),
    }
    assert_eq!(session.route_by_input_handle(4), Ok(0));
    // the same name again is refused by the session
    assert!(matches!(
        acceptor.accept_incoming_attach(sender_attach("in", 5, ReceiverSettleMode::First), &mut session),
        Err(LinkAcceptorError::AllocLink(AllocLinkError::DuplicatedLinkName))
    ));
}

#[test]
fn acceptor_falls_back_and_refuses_coordinators() {
    let mut session = mapped_session();
    let acceptor = LocalReceiverLinkAcceptor {
        supported_rcv_settle_modes: SupportedReceiverSettleModes::First,
        fallback_rcv_settle_mode: ReceiverSettleMode::First,
        credit_mode: CreditMode::Manual,
        max_message_size: Some(100),
        target_capabilities: Some(vec![fe2o3_amqp::definitions::Symbol::new("cap".to_string())]),
    };
    let (link, answer, flow) = acceptor
        .accept_incoming_attach(sender_attach("a", 1, ReceiverSettleMode::Second), &mut session)
        .unwrap();
    assert_eq!(link.rcv_settle_mode, ReceiverSettleMode::First);
    assert!(flow.is_none());
    assert_eq!(link.flow_state.link_credit, 0);
    assert_eq!(link.max_message_size, 100);
    match &answer.target {
        Some(TargetArchetype::Target(t)) => {
            assert_eq!(t.capabilities.as_ref().unwrap()[0].0, "cap");
            assert_eq!(t.address, Some("q".to_string()));
        }
        other => panic!("unexpected {:?}", other),
    }
    let mut control = sender_attach("ctl", 2, ReceiverSettleMode::First);
    control.target = Some(TargetArchetype::Coordinator(Coordinator { capabilities: None }));
    assert_eq!(route_incoming_attach(&control.target), AttachDestination::Coordinator);
    assert!(acceptor.accept_incoming_attach(control, &mut session).is_err());
    assert_eq!(
        route_incoming_attach(&Some(TargetArchetype::Target(terminus_target("q")))),
        AttachDestination::Session
    );
}

#[test]
fn attach_routing_by_name() {
    let mut session = mapped_session();
    let h = session.allocate_link("mine".to_string(), None).unwrap();
    assert_eq!(session.on_incoming_attach(&"mine".to_string(), 11), AttachRoute::ToLink(h));
    assert_eq!(session.route_by_input_handle(11), Ok(h));
    assert_eq!(session.on_incoming_attach(&"other".to_string(), 12), AttachRoute::ToAcceptor);
    assert!(session.route_by_input_handle(12).is_err());
}

#[test]
fn begin_and_accept_sessions() {
    let mut conn = opened_connection();
    let (s, b) = Builder::new().next_outgoing_id(4).begin(&mut conn).unwrap();
    assert_eq!(s.outgoing_channel, 0);
    assert_eq!(s.local_state, SessionState::BeginSent);
    assert_eq!(b.next_outgoing_id, 4);
    let remote = Begin { remote_channel: None, next_outgoing_id: 8, incoming_window: 3, outgoing_window: 3, handle_max: 1 };
    let acceptor = SessionAcceptor(SessionAcceptor::builder().handle_max(1));
    let (accepted, reply) = acceptor.accept(&mut conn, 6, &remote).unwrap();
    assert_eq!(accepted.outgoing_channel, 1);
    assert_eq!(accepted.local_state, SessionState::Mapped);
    assert_eq!(accepted.next_incoming_id, 8);
    assert_eq!(reply.remote_channel, Some(6));
    assert_eq!(conn.route_incoming(6), Ok(1));
    let mut closed = Connection::new("x".to_string(), None, &Open {
        container_id: "x".to_string(),
        hostname: None,
        max_frame_size: MaxFrameSize::default(),
        channel_max: ChannelMax::default(),
        idle_time_out: None,
        outgoing_locales: None,
        incoming_locales: None,
        offered_capabilities: None,
        desired_capabilities: None,
        properties: None,
    });
    assert!(matches!(Builder::new().begin(&mut closed), Err(AllocSessionError::IllegalState)));
}

#[test]
fn attach_error_policy() {
    assert!(matches!(handle_attach_error(SenderAttachError::IllegalState), AttachErrorAction::Report));
    assert!(matches!(
        handle_attach_error(SenderAttachError::IncomingTargetIsNone),
        AttachErrorAction::DetachClosed
    ));
    match handle_attach_error(SenderAttachError::SndSettleModeNotSupported) {
        AttachErrorAction::DetachWithError(e) => {
            assert!(matches!(e.condition, ErrorCondition::AmqpError(AmqpError::InvalidField)))
        }
        other => panic!("unexpected {:?}", other),
    }
    match handle_attach_error(SenderAttachError::CoordinatorIsNotImplemented) {
        AttachErrorAction::DetachWithError(e) => {
            assert!(matches!(e.condition, ErrorCondition::AmqpError(AmqpError::NotImplemented)))
        }
        other => panic!("unexpected {:?}", other),
    }
}
