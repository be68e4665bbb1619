use fe2o3_amqp::definitions::{
    DeliveryState, ReceiverSettleMode, Role, SenderSettleMode, Source, Target, TargetArchetype,
    TerminusDurability, TerminusExpiryPolicy,
};
use fe2o3_amqp::link::{
    batch_ranges, delivery_tag_of, split_payload, Attach, LinkFlowState, LinkState, ReceiverLink,
    ReceiverTransferError, ResumingDelivery, SenderAttachError, SenderAttachExchange, SenderLink,
    Settlement, Transfer, UnsettledMessage, resume_unsettled,
};
use fe2o3_amqp::error::SenderTryConsumeError;

fn source(addr: &str) -> Source {
    Source {
        address: Some(addr.to_string()),
        durable: TerminusDurability::NoDurability,
        expiry_policy: TerminusExpiryPolicy::SessionEnd,
        timeout: 0,
        dynamic: false,
        filter: None,
        capabilities: None,
    }
}

fn target(addr: &str) -> Target {
    Target {
        address: Some(addr.to_string()),
        durable: TerminusDurability::NoDurability,
        expiry_policy: TerminusExpiryPolicy::SessionEnd,
        timeout: 0,
        dynamic: false,
        capabilities: None,
    }
}

fn attach_from_receiver(name: &str, handle: u32, src: &str, tgt: &str) -> Attach {
    Attach {
        name: name.to_string(),
        handle,
        role: Role::Receiver,
        snd_settle_mode: SenderSettleMode::Unsettled,
        rcv_settle_mode: ReceiverSettleMode::First,
        source: Some(source(src)),
        target: Some(TargetArchetype::Target(target(tgt))),
        unsettled: None,
        incomplete_unsettled: false,
        initial_delivery_count: None,
        max_message_size: None,
    }
}

fn attached_sender(name: &str, initial_count: u32, max_message_size: u64) -> SenderLink {
    let mut link = SenderLink::new(
        name.to_string(),
        Some(0),
        SenderSettleMode::Unsettled,
        ReceiverSettleMode::First,
        Some(source("src")),
        Some(TargetArchetype::Target(target("q"))),
        max_message_size,
        initial_count,
    );
    link.on_attach_sent().unwrap();
    let ex = link.on_incoming_attach(attach_from_receiver(name, 3, "src", "q")).unwrap();
    assert!(matches!(ex, SenderAttachExchange::Complete));
    assert_eq!(link.local_state, LinkState::Attached);
    link
}

fn transfer(tag: Option<Vec<u8>>, more: bool, aborted: bool) -> Transfer {
    Transfer {
        handle: 0,
        delivery_id: None,
        delivery_tag: tag,
        message_format: None,
        settled: None,
        more,
        rcv_settle_mode: None,
        state: None,
        resume: false,
        aborted,
        batchable: false,
    }
}

#[test]
fn send_a_short_message() {
    let mut link = attached_sender("s1", 0, 0);
    link.flow_state.on_incoming_flow_as_sender(Some(0), 1, false);
    assert_eq!(link.flow_state.link_credit, 1);
    let (settlement, frames) = link.send_payload(&b"hi".to_vec(), 0, None, None, false).unwrap();
    assert_eq!(frames.len(), 1);
    let t = &frames[0].performative;
    assert_eq!(t.delivery_tag, Some(vec![0]));
    assert_eq!(t.settled, Some(false));
    assert!(!t.more);
    assert_eq!(frames[0].payload, b"hi".to_vec());
    assert!(matches!(settlement, Settlement::Unsettled(ref tag) if tag == &vec![0]));
    assert_eq!(link.unsettled.len(), 1);
    // the peer settles it with `accepted`
    let outcome = link.on_incoming_disposition(&vec![0], true, Some(DeliveryState::Accepted));
    assert!(matches!(outcome, Some(DeliveryState::Accepted)));
    assert!(link.unsettled.is_empty());
}

#[test]
fn multi_transfer_delivery() {
    let mut link = attached_sender("s2", 1, 16);
    link.flow_state.on_incoming_flow_as_sender(Some(1), 5, false);
    let payload: Vec<u8> = (0u8..40).collect();
    let (_, frames) = link.send_payload(&payload, 0, None, None, false).unwrap();
    assert_eq!(frames.len(), 3);
    let sizes: Vec<usize> = frames.iter().map(|f| f.payload.len()).collect();
    assert_eq!(sizes, vec![16, 16, 8]);
    let mores: Vec<bool> = frames.iter().map(|f| f.performative.more).collect();
    assert_eq!(mores, vec![true, true, false]);
    assert_eq!(frames[0].performative.delivery_tag, Some(vec![1]));
    assert_eq!(frames[0].performative.message_format, Some(0));
    for f in &frames[1..] {
        assert!(f.performative.delivery_tag.is_none());
        assert!(f.performative.message_format.is_none());
        assert!(f.performative.settled.is_none());
    }
    let joined: Vec<u8> = frames.iter().flat_map(|f| f.payload.clone()).collect();
    assert_eq!(joined, payload);
}

#[test]
fn no_credit_no_send() {
    let mut link = attached_sender("s3", 0, 0);
    assert!(link.send_payload(&vec![1], 0, None, None, false).is_err());
    assert_eq!(link.flow_state.delivery_count, 0);
}

#[test]
fn credit_consumption_advances_delivery_count() {
    let mut fs = LinkFlowState::new(u32::MAX);
    fs.on_incoming_flow_as_sender(None, 2, false);
    assert_eq!(fs.link_credit, 2);
    assert_eq!(fs.try_consume(1), Ok(u32::MAX));
    assert_eq!(fs.delivery_count, 0);
    assert_eq!(fs.link_credit, 1);
    assert_eq!(fs.try_consume(1), Ok(0));
    assert_eq!(fs.delivery_count, 1);
    assert_eq!(fs.link_credit, 0);
    assert_eq!(fs.try_consume(1), Err(SenderTryConsumeError::InsufficientCredit));
    assert_eq!(fs.delivery_count, 1);
}

#[test]
fn draining_sender_uses_up_credit() {
    let mut fs = LinkFlowState::new(10);
    fs.on_incoming_flow_as_sender(Some(10), 5, true);
    fs.drain_as_sender();
    assert_eq!(fs.delivery_count, 15);
    assert_eq!(fs.link_credit, 0);
}

#[test]
fn aborted_delivery_is_dropped() {
    let mut r = ReceiverLink::new(
        "r1".to_string(),
        Some(1),
        SenderSettleMode::Unsettled,
        ReceiverSettleMode::First,
        None,
        Some(TargetArchetype::Target(target("q"))),
        0,
    );
    r.set_credit(1).unwrap();
    assert!(r.on_incoming_transfer(transfer(Some(vec![7]), true, false), &vec![1, 2]).unwrap().is_none());
    assert!(r.on_incoming_transfer(transfer(None, true, false), &vec![3, 4]).unwrap().is_none());
    assert!(r.on_incoming_transfer(transfer(None, false, true), &vec![5]).unwrap().is_none());
    assert!(r.incomplete.is_none());
    assert_eq!(r.flow_state.link_credit, 1);
    assert_eq!(r.flow_state.delivery_count, 0);
    // the next delivery arrives whole
    let d = r.on_incoming_transfer(transfer(Some(vec![8]), false, false), &vec![9]).unwrap().unwrap();
    assert_eq!(d.delivery_tag, vec![8]);
    assert_eq!(d.payload, vec![9]);
    assert_eq!(r.flow_state.link_credit, 0);
    assert_eq!(r.flow_state.delivery_count, 1);
}

#[test]
fn assembled_delivery_and_errors() {
    let mut r = ReceiverLink::new(
        "r2".to_string(),
        Some(1),
        SenderSettleMode::Unsettled,
        ReceiverSettleMode::First,
        None,
        None,
        0,
    );
    assert_eq!(
        r.on_incoming_transfer(transfer(None, false, false), &vec![1]).unwrap_err(),
        ReceiverTransferError::DeliveryTagIsNone
    );
    assert!(r.on_incoming_transfer(transfer(Some(vec![1]), true, false), &vec![1, 2]).unwrap().is_none());
    assert_eq!(
        r.on_incoming_transfer(transfer(None, false, false), &vec![3]).unwrap_err(),
        ReceiverTransferError::TransferLimitExceeded
    );
    r.set_credit(3).unwrap();
    assert!(r.on_incoming_transfer(transfer(Some(vec![2]), true, false), &vec![1, 2]).unwrap().is_none());
    let d = r.on_incoming_transfer(transfer(None, false, false), &vec![3]).unwrap().unwrap();
    assert_eq!(d.payload, vec![1, 2, 3]);
    let flow = r.drain().unwrap();
    assert!(flow.drain);
    assert_eq!(flow.link_credit, Some(2));
}

#[test]
fn attach_authority() {
    let mut sender = SenderLink::new(
        "l".to_string(),
        Some(0),
        SenderSettleMode::Unsettled,
        ReceiverSettleMode::First,
        Some(source("orders")),
        None,
        0,
        0,
    );
    let mut receiver = ReceiverLink::new(
        "l".to_string(),
        Some(5),
        SenderSettleMode::Unsettled,
        ReceiverSettleMode::First,
        None,
        Some(TargetArchetype::Target(target("q"))),
        0,
    );
    sender.on_attach_sent().unwrap();
    let from_sender = Attach {
        name: "l".to_string(),
        handle: 0,
        role: Role::Sender,
        snd_settle_mode: SenderSettleMode::Unsettled,
        rcv_settle_mode: ReceiverSettleMode::First,
        source: Some(source("orders")),
        target: Some(TargetArchetype::Target(target("q"))),
        unsettled: None,
        incomplete_unsettled: false,
        initial_delivery_count: Some(0),
        max_message_size: Some(1024),
    };
    receiver.on_incoming_attach(from_sender).unwrap();
    sender.on_incoming_attach(attach_from_receiver("l", 5, "orders", "q")).unwrap();
    assert_eq!(receiver.source.as_ref().unwrap().address, Some("orders".to_string()));
    match &sender.target {
        Some(TargetArchetype::Target(t)) => assert_eq!(t.address, Some("q".to_string())),
        other => panic!("unexpected {:?}", other),
    }
    assert_eq!(receiver.max_message_size, 1024);
    assert_eq!(sender.input_handle, Some(5));
}

#[test]
fn attach_refusals() {
    let mut sender = attached_sender("x", 0, 0);
    // attaching twice is not allowed
    assert_eq!(
        sender.on_incoming_attach(attach_from_receiver("x", 3, "src", "q")).unwrap_err(),
        SenderAttachError::IllegalState
    );
    let mut s2 = SenderLink::new(
        "y".to_string(),
        Some(0),
        SenderSettleMode::Unsettled,
        ReceiverSettleMode::First,
        Some(source("a")),
        None,
        0,
        0,
    );
    s2.on_attach_sent().unwrap();
    assert_eq!(
        s2.on_incoming_attach(attach_from_receiver("y", 1, "b", "q")).unwrap_err(),
        SenderAttachError::SourceMismatch
    );
    let mut a = attach_from_receiver("y", 1, "a", "q");
    a.rcv_settle_mode = ReceiverSettleMode::Second;
    assert_eq!(s2.on_incoming_attach(a).unwrap_err(), SenderAttachError::RcvSettleModeNotSupported);
    let mut a = attach_from_receiver("y", 1, "a", "q");
    a.target = None;
    assert_eq!(s2.on_incoming_attach(a).unwrap_err(), SenderAttachError::IncomingTargetIsNone);
    assert_eq!(s2.local_state, LinkState::AttachSent);
}

#[test]
fn resume_actions_follow_the_table() {
    let local = vec![
        UnsettledMessage { tag: vec![1], state: None, payload: vec![] },
        UnsettledMessage { tag: vec![2], state: Some(DeliveryState::Accepted), payload: vec![] },
        UnsettledMessage { tag: vec![3], state: None, payload: vec![] },
        UnsettledMessage { tag: vec![4], state: None, payload: vec![] },
    ];
    let remote = vec![
        (vec![1], Some(DeliveryState::Accepted)),
        (vec![2], Some(DeliveryState::Received { section_number: 0, section_offset: 0 })),
        (vec![4], None),
        (vec![9], None),
    ];
    let a = resume_unsettled(&local, &remote);
    let b = resume_unsettled(&local, &remote);
    let expected = vec![
        (vec![1], ResumingDelivery::SettleWithRemoteState),
        (vec![2], ResumingDelivery::SendLocalState),
        (vec![3], ResumingDelivery::Restart),
        (vec![4], ResumingDelivery::Resume),
        (vec![9], ResumingDelivery::Abort),
    ];
    assert_eq!(a, expected);
    assert_eq!(a, b);
}

#[test]
fn batched_dispositions() {
    assert_eq!(batch_ranges(&vec![3, 4, 5, 6]), vec![(3, Some(6))]);
    assert_eq!(batch_ranges(&vec![3, 4, 6, 7]), vec![(3, Some(4)), (6, Some(7))]);
    assert_eq!(batch_ranges(&vec![9]), vec![(9, None)]);
    assert_eq!(batch_ranges(&vec![]), vec![]);

    let mut link = attached_sender("b", 0, 0);
    link.flow_state.on_incoming_flow_as_sender(Some(0), 10, false);
    let mut tags = Vec::new();
    for _ in 0..4 {
        let (s, _) = link.send_payload(&vec![0], 0, None, None, false).unwrap();
        match s {
            Settlement::Unsettled(t) => tags.push(t),
            Settlement::Settled(_) => panic!("expected unsettled"),
        }
    }
    let ids_and_tags = vec![
        (12u32, tags[2].clone()),
        (10u32, tags[0].clone()),
        (11u32, tags[1].clone()),
        (14u32, tags[3].clone()),
    ];
    let ds = link.batch_dispose(&ids_and_tags, true, DeliveryState::Accepted, false);
    let ranges: Vec<(u32, Option<u32>)> = ds.iter().map(|d| (d.first, d.last)).collect();
    assert_eq!(ranges, vec![(10, Some(12)), (14, None)]);
    assert!(ds.iter().all(|d| d.settled && d.role == Role::Sender));
    assert!(link.unsettled.is_empty());
}

#[test]
fn single_disposition() {
    let mut link = attached_sender("d", 0, 0);
    link.flow_state.on_incoming_flow_as_sender(Some(0), 1, false);
    let (s, _) = link.send_payload(&vec![0], 0, None, None, false).unwrap();
    let tag = match s {
        Settlement::Unsettled(t) => t,
        Settlement::Settled(_) => panic!("expected unsettled"),
    };
    let d = link.dispose(0, &tag, false, DeliveryState::Released, true).unwrap();
    assert_eq!((d.first, d.last, d.settled), (0, None, false));
    assert_eq!(link.unsettled.len(), 1);
    assert!(matches!(link.unsettled[0].state, Some(DeliveryState::Released)));
    let d = link.dispose(0, &tag, true, DeliveryState::Accepted, false).unwrap();
    assert!(d.settled);
    assert!(link.unsettled.is_empty());
}

#[test]
fn presettled_sender() {
    let mut link = SenderLink::new(
        "p".to_string(),
        Some(0),
        SenderSettleMode::Settled,
        ReceiverSettleMode::First,
        None,
        None,
        0,
        0,
    );
    link.on_attach_sent().unwrap();
    let mut a = attach_from_receiver("p", 0, "x", "q");
    a.snd_settle_mode = SenderSettleMode::Settled;
    link.on_incoming_attach(a).unwrap();
    link.flow_state.on_incoming_flow_as_sender(Some(0), 1, false);
    let (s, frames) = link.send_payload(&vec![1], 0, Some(false), None, false).unwrap();
    assert!(matches!(s, Settlement::Settled(_)));
    assert_eq!(frames[0].performative.settled, Some(true));
    assert!(link.unsettled.is_empty());
    assert!(link.dispose(0, &vec![0], true, DeliveryState::Accepted, false).is_none());
}

#[test]
fn split_and_tags() {
    let p: Vec<u8> = (0u8..10).collect();
    let pieces = split_payload(&p, 4);
    assert_eq!(pieces, vec![vec![0, 1, 2, 3], vec![4, 5, 6, 7], vec![8, 9]]);
    assert_eq!(split_payload(&p, 0), vec![p.clone()]);
    assert_eq!(delivery_tag_of(0), vec![0]);
    assert_eq!(delivery_tag_of(255), vec![255]);
    assert_eq!(delivery_tag_of(256), vec![1, 0]);
    assert_eq!(delivery_tag_of(0x01020304), vec![1, 2, 3, 4]);
}

#[test]
fn send_with_prepared_transfer() {
    let mut link = attached_sender("t", 0, 0);
    let mut t = transfer(Some(vec![42]), false, false);
    t.settled = Some(true);
    let (s, frames) = link.send_payload_with_transfer(t, &vec![1, 2]).unwrap();
    assert!(matches!(s, Settlement::Settled(ref tag) if tag == &vec![42]));
    assert_eq!(frames.len(), 1);
    let t = transfer(None, false, false);
    assert!(link.send_payload_with_transfer(t, &vec![1]).is_err());
    let flow = link.send_flow(Some(7), None, true).unwrap();
    assert_eq!(flow.delivery_count, Some(7));
    assert!(flow.echo);
}

#[test]
fn detach_exchange() {
    assert_eq!(LinkState::Attached.on_detach_sent(false), Some(LinkState::DetachSent));
    assert_eq!(LinkState::DetachSent.on_detach_received(true), Some(LinkState::Closed));
    assert_eq!(LinkState::DetachSent.on_detach_received(false), Some(LinkState::Detached));
    assert_eq!(LinkState::Attached.on_detach_received(true), Some(LinkState::DetachReceived));
    assert_eq!(LinkState::DetachReceived.on_detach_sent(true), Some(LinkState::Closed));
    assert_eq!(LinkState::Closed.on_detach_sent(true), None);
}

#[test]
fn reattach_hands_over_unsettled_deliveries() {
    let mut link = attached_sender("re", 0, 0);
    link.flow_state.on_incoming_flow_as_sender(Some(0), 2, false);
    link.send_payload(&vec![7, 7], 0, None, None, false).unwrap();
    link.send_payload(&vec![8], 0, None, None, false).unwrap();
    link.local_state = LinkState::Detached;
    link.on_attach_sent().unwrap();
    let mut a = attach_from_receiver("re", 3, "src", "q");
    a.unsettled = Some(vec![(vec![0], Some(DeliveryState::Accepted)), (vec![9], None)]);
    let ex = link.on_incoming_attach(a).unwrap();
    assert!(link.unsettled.is_empty());
    match ex {
        SenderAttachExchange::Resume(entries) => {
            assert_eq!(entries.len(), 3);
            assert_eq!(entries[0].delivery_tag, vec![0]);
            assert_eq!(entries[0].action, ResumingDelivery::SettleWithRemoteState);
            assert_eq!(entries[0].local.as_ref().unwrap().payload, vec![7, 7]);
            assert_eq!(entries[1].delivery_tag, vec![1]);
            assert_eq!(entries[1].action, ResumingDelivery::Restart);
            assert_eq!(entries[1].local.as_ref().unwrap().payload, vec![8]);
            assert_eq!(entries[2].delivery_tag, vec![9]);
            assert_eq!(entries[2].action, ResumingDelivery::Abort);
            assert!(entries[2].local.is_none());
        }
        other => panic!("unexpected {:?}", other),
    }
}

#[test]
fn rejected_outcome_keeps_its_error() {
    use_rejected();
}

fn use_rejected() {
    let mut link = attached_sender("rj", 0, 0);
    link.flow_state.on_incoming_flow_as_sender(Some(0), 1, false);
    let (s, _) = link.send_payload(&vec![0], 0, None, None, false).unwrap();
    let tag = match s {
        Settlement::Unsettled(t) => t,
        Settlement::Settled(_) => panic!("expected unsettled"),
    };
    let err = fe2o3_amqp::error::Error::new(
        fe2o3_amqp::error::ErrorCondition::amqp_error(fe2o3_amqp::error::AmqpError::DecodeError),
        Some("bad".to_string()),
    );
    let d = link.dispose(0, &tag, true, DeliveryState::Rejected { error: Some(err) }, false).unwrap();
    match d.state {
        Some(DeliveryState::Rejected { error: Some(e) }) => {
            assert_eq!(e.description, Some("bad".to_string()));
            assert!(matches!(e.condition, fe2o3_amqp::error::ErrorCondition::AmqpError(fe2o3_amqp::error::AmqpError::DecodeError)));
        }
        other => panic!("unexpected {:?}", other),
    }
}
