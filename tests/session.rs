use fe2o3_amqp::definitions::Symbol;
use fe2o3_amqp::error::{AllocLinkError, SessionError};
use fe2o3_amqp::session::{
    Begin, Builder, Session, SessionAcceptor, SessionFlow, SessionState, SessionStateError,
};

fn mapped_session(remote_window: u32) -> Session {
    let builder = Builder::new();
    let mut s = Session::new(&builder, 0);
    s.send_begin().unwrap();
    s.on_incoming_begin(
        0,
        &Begin {
            remote_channel: Some(0),
            next_outgoing_id: 5,
            incoming_window: remote_window,
            outgoing_window: 1024,
            handle_max: u32::MAX,
        },
    )
    .unwrap();
    s
}

#[test]
fn session_begin() {
    let builder = Builder::new();
    let mut s = Session::new(&builder, 0);
    let begin = s.send_begin().unwrap();
    assert_eq!(begin.remote_channel, None);
    assert_eq!(begin.next_outgoing_id, 0);
    assert_eq!(begin.incoming_window, 2048);
    assert_eq!(begin.outgoing_window, 2048);
    assert_eq!(s.local_state, SessionState::BeginSent);
    s.on_incoming_begin(
        0,
        &Begin {
            remote_channel: Some(0),
            next_outgoing_id: 5,
            incoming_window: 1024,
            outgoing_window: 1024,
            handle_max: u32::MAX,
        },
    )
    .unwrap();
    assert_eq!(s.local_state, SessionState::Mapped);
    assert_eq!(s.remote_incoming_window, 1024);
    assert_eq!(s.next_incoming_id, 5);
    assert_eq!(s.incoming_channel, Some(0));
}

#[test]
fn accepted_session_answers_begin() {
    let mut s = Session::new(&SessionAcceptor::builder(), 3);
    s.on_incoming_begin(
        7,
        &Begin {
            remote_channel: None,
            next_outgoing_id: 0,
            incoming_window: 10,
            outgoing_window: 10,
            handle_max: 4,
        },
    )
    .unwrap();
    assert_eq!(s.local_state, SessionState::BeginReceived);
    let b = s.send_begin().unwrap();
    assert_eq!(b.remote_channel, Some(7));
    assert_eq!(s.local_state, SessionState::Mapped);
}

#[test]
fn transfers_respect_the_remote_window() {
    let mut s = mapped_session(2);
    assert_eq!(s.on_outgoing_transfer(true), Ok(Some(0)));
    assert_eq!(s.on_outgoing_transfer(false), Ok(None));
    assert_eq!(s.next_outgoing_id, 2);
    assert_eq!(s.remote_incoming_window, 0);
    assert_eq!(s.on_outgoing_transfer(true), Err(SessionStateError::RemoteWindowExhausted));
    // the peer has taken both and opens its window by three
    s.on_incoming_flow(&SessionFlow {
        next_incoming_id: Some(2),
        incoming_window: 3,
        next_outgoing_id: 5,
        outgoing_window: 1024,
    });
    assert_eq!(s.remote_incoming_window, 3);
    assert_eq!(s.on_outgoing_transfer(true), Ok(Some(2)));
    assert_eq!(s.remote_incoming_window, 2);
}

#[test]
fn incoming_window_violation() {
    let mut builder = Builder::new();
    builder = builder.incoming_window(1);
    let mut s = Session::new(&builder, 0);
    s.send_begin().unwrap();
    assert!(s.on_incoming_transfer().is_ok());
    assert_eq!(s.incoming_window, 0);
    assert_eq!(
        s.on_incoming_transfer(),
        Err(SessionStateError::Session(SessionError::WindowViolation))
    );
    let flow = s.flow_state();
    assert_eq!(flow.incoming_window, 0);
    assert_eq!(flow.next_incoming_id, None);
}

#[test]
fn link_handles() {
    let mut s = mapped_session(10);
    assert_eq!(s.allocate_link("a".to_string(), None), Ok(0));
    assert_eq!(s.allocate_link("b".to_string(), Some(4)), Ok(1));
    assert_eq!(s.allocate_link("a".to_string(), None), Err(AllocLinkError::DuplicatedLinkName));
    s.deallocate_link(0);
    assert_eq!(s.allocate_link("c".to_string(), None), Ok(0));
    let mut small = Session::new(&Builder::new().handle_max(0), 0);
    small.send_begin().unwrap();
    small
        .on_incoming_begin(
            0,
            &Begin {
                remote_channel: Some(0),
                next_outgoing_id: 0,
                incoming_window: 1,
                outgoing_window: 1,
                handle_max: 0,
            },
        )
        .unwrap();
    assert_eq!(small.allocate_link("x".to_string(), None), Ok(0));
    assert_eq!(small.allocate_link("y".to_string(), None), Err(AllocLinkError::HandleMaxReached));
    let mut unmapped = Session::new(&Builder::new(), 1);
    assert_eq!(unmapped.allocate_link("z".to_string(), None), Err(AllocLinkError::IllegalState));
}

#[test]
fn session_builder() {
    let b = Builder::new()
        .next_outgoing_id(9)
        .incoming_window(1)
        .outgoing_widnow(2)
        .handle_max(3)
        .add_offered_capabilities(Symbol::new("a".to_string()))
        .add_offered_capabilities(Symbol::new("b".to_string()))
        .add_desired_capabilities(Symbol::new("c".to_string()))
        .buffer_size(16);
    assert_eq!(b.next_outgoing_id, 9);
    assert_eq!(b.incoming_window, 1);
    assert_eq!(b.outgoing_window, 2);
    assert_eq!(b.handle_max, 3);
    assert_eq!(b.offered_capabilities.as_ref().unwrap().len(), 2);
    assert_eq!(b.desired_capabilities.as_ref().unwrap().len(), 1);
    assert_eq!(b.buffer_size, 16);
    let s = Session::new(&b, 2);
    assert_eq!(s.next_outgoing_id, 9);
    assert_eq!(s.outgoing_channel, 2);
}

#[test]
fn dispositions_reach_their_links() {
    let mut s = mapped_session(10);
    s.record_outgoing_delivery(0, 1, vec![0], false);
    s.record_outgoing_delivery(1, 1, vec![1], true);
    s.record_outgoing_delivery(2, 2, vec![2], false);
    s.record_outgoing_delivery(5, 1, vec![5], false);
    assert_eq!(s.delivery_tag_by_id.len(), 3);
    let hit = s.on_incoming_disposition(0, Some(2), false);
    assert_eq!(hit, vec![(1, vec![0]), (2, vec![2])]);
    assert_eq!(s.delivery_tag_by_id.len(), 3);
    let hit = s.on_incoming_disposition(2, Some(5), true);
    assert_eq!(hit, vec![(2, vec![2]), (1, vec![5])]);
    assert_eq!(s.delivery_tag_by_id.len(), 1);
    assert!(s.delivery_tag_by_id.contains_key(&0));
    let hit = s.on_incoming_disposition(0, None, true);
    assert_eq!(hit, vec![(1, vec![0])]);
    assert!(s.delivery_tag_by_id.is_empty());
}

#[test]
fn session_end_exchange() {
    let mut s = mapped_session(1);
    s.on_end_sent(false).unwrap();
    assert_eq!(s.local_state, SessionState::EndSent);
    s.on_incoming_end().unwrap();
    assert_eq!(s.local_state, SessionState::Unmapped);

    let mut s = mapped_session(1);
    s.on_end_sent(true).unwrap();
    assert_eq!(s.local_state, SessionState::Discarding);
    assert_eq!(s.on_end_sent(false), Err(SessionStateError::IllegalState));
    s.on_incoming_end().unwrap();
    assert_eq!(s.local_state, SessionState::Unmapped);

    let mut s = mapped_session(1);
    s.on_incoming_end().unwrap();
    assert_eq!(s.local_state, SessionState::EndReceived);
    s.on_end_sent(false).unwrap();
    assert_eq!(s.local_state, SessionState::Unmapped);
}
