//! Accepting links the peer starts: a local receiver answers the peer
//! sender's `attach`.
use vstd::prelude::*;
use crate::definitions::{
    caps_view, copy_caps, copy_source, copy_target, opt_source_same, opt_str_eq, opt_target_same,
    ReceiverSettleMode, Role, Symbol, Target, TargetArchetype,
};
use crate::error::{AllocLinkError, AttachError};
use crate::link::{
    Attach, LinkFlow, LinkState, ReceiverAttachError, ReceiverLink,
};
use crate::session::{handle_used, name_used, names_unique, Session, SessionState};

verus! {

/// The receiver settle modes a local receiver supports.
#[derive(Clone, Copy, Debug, PartialEq, Eq, Structural)]
pub enum SupportedReceiverSettleModes {
    First,
    Second,
    Both,
}

pub open spec fn supports_spec(s: SupportedReceiverSettleModes, m: ReceiverSettleMode) -> bool {
    match s {
        SupportedReceiverSettleModes::First => m == ReceiverSettleMode::First,
        SupportedReceiverSettleModes::Second => m == ReceiverSettleMode::Second,
        SupportedReceiverSettleModes::Both => true,
    }
}

impl SupportedReceiverSettleModes {
    pub fn supports(&self, m: ReceiverSettleMode) -> (r: bool)
        ensures
            r == supports_spec(*self, m),
    {
        match self {
            SupportedReceiverSettleModes::First => m == ReceiverSettleMode::First,
            SupportedReceiverSettleModes::Second => m == ReceiverSettleMode::Second,
            SupportedReceiverSettleModes::Both => true,
        }
    }
}

/// How an accepted receiver grants credit.
#[derive(Clone, Copy, Debug, PartialEq, Eq, Structural)]
pub enum CreditMode {
    /// The application grants it.
    Manual,
    /// This much credit is granted at once, and kept up.
    Auto(u32),
}

/// Why an incoming link could not be accepted.
#[derive(Debug)]
pub enum LinkAcceptorError {
    /// The session could not give the link a handle.
    AllocLink(AllocLinkError),
    /// The link refused the peer's `attach`.
    Attach(ReceiverAttachError),
    /// Attaching failed locally.
    Local(AttachError),
}

/// Accepts links whose sender is the peer, answering with a local receiver.
#[derive(Debug)]
pub struct LocalReceiverLinkAcceptor {
    pub supported_rcv_settle_modes: SupportedReceiverSettleModes,
    pub fallback_rcv_settle_mode: ReceiverSettleMode,
    pub credit_mode: CreditMode,
    pub max_message_size: Option<u64>,
    /// The capabilities the accepted links' targets are given.
    pub target_capabilities: Option<Vec<Symbol>>,
}

/// The accepted link's target: the peer's, with the acceptor's capabilities.
pub open spec fn accepted_target(t: Target, remote: Target, caps: Option<Vec<Symbol>>) -> bool {
    &&& opt_str_eq(t.address, remote.address)
    &&& t.durable == remote.durable
    &&& t.expiry_policy == remote.expiry_policy
    &&& t.timeout == remote.timeout
    &&& t.dynamic == remote.dynamic
    &&& caps_view(t.capabilities) == caps_view(caps)
}

impl LocalReceiverLinkAcceptor {
    /// Supports both modes, falls back to `First`, and grants 200 credits.
    pub fn default() -> (r: LocalReceiverLinkAcceptor)
        ensures
            r.supported_rcv_settle_modes == SupportedReceiverSettleModes::Both,
            r.fallback_rcv_settle_mode == ReceiverSettleMode::First,
            r.credit_mode == CreditMode::Auto(200),
            r.max_message_size is None,
            r.target_capabilities is None,
    {
        LocalReceiverLinkAcceptor {
            supported_rcv_settle_modes: SupportedReceiverSettleModes::Both,
            fallback_rcv_settle_mode: ReceiverSettleMode::First,
            credit_mode: CreditMode::Auto(200),
            max_message_size: None,
            target_capabilities: None,
        }
    }

    /// The receiver settle mode the answer carries: the sender's wish when
    /// it is supported, else the fallback.
    pub open spec fn chosen_mode(&self, remote: ReceiverSettleMode) -> ReceiverSettleMode {
        if supports_spec(self.supported_rcv_settle_modes, remote) {
            remote
        } else {
            self.fallback_rcv_settle_mode
        }
    }

    /// Answers the peer sender's `attach`: a coordinator target is refused
    /// as not implemented; otherwise the session gives the link the lowest
    /// free handle, the receiver takes in the `attach` (adopting the
    /// sender's source and settle mode, and its target with the acceptor's
    /// capabilities) and answers with its own `attach`; with automatic
    /// credit the first `flow` is made too.
    pub fn accept_incoming_attach(&self, remote_attach: Attach, session: &mut Session) -> (r: Result<
        (ReceiverLink, Attach, Option<LinkFlow>),
        LinkAcceptorError,
    >)
        requires
            names_unique(old(session).links@),
        ensures
            names_unique(final(session).links@),
            remote_attach.target matches Some(TargetArchetype::Coordinator(_)) ==> r is Err
                && final(session).links == old(session).links,
            old(session).local_state == SessionState::Mapped && name_used(
                old(session).links@,
                remote_attach.name@,
            ) ==> r is Err && final(session).links == old(session).links,
            old(session).local_state == SessionState::Mapped && !name_used(
                old(session).links@,
                remote_attach.name@,
            ) && (exists|h: u32| h <= old(session).handle_max && !handle_used(old(session).links@, h))
                && remote_attach.source is Some && (remote_attach.target matches Some(
                TargetArchetype::Target(_),
            )) && remote_attach.initial_delivery_count is Some ==> r is Ok,
            r is Ok ==> {
                let (link, answer, flow) = r->Ok_0;
                &&& link.target matches Some(TargetArchetype::Target(t)) && remote_attach.target matches Some(
                    TargetArchetype::Target(rt),
                ) && accepted_target(t, rt, self.target_capabilities)
                &&& answer.name@ == link.name@
                &&& answer.handle == link.output_handle->0
                &&& answer.role == Role::Receiver
                &&& answer.snd_settle_mode == link.snd_settle_mode
                &&& answer.rcv_settle_mode == link.rcv_settle_mode
                &&& opt_source_same(answer.source, link.source)
                &&& opt_target_same(answer.target, link.target)
                &&& answer.unsettled is None
                &&& !answer.incomplete_unsettled
                &&& answer.initial_delivery_count is None
                &&& answer.max_message_size == Some(link.max_message_size)
                &&& link.name@ == remote_attach.name@
                &&& link.output_handle is Some
                &&& final(session).links@ == old(session).links@.push(final(session).links@.last())
                &&& final(session).links@.last().output_handle == link.output_handle->0
                &&& final(session).links@.last().input_handle == Some(remote_attach.handle)
                &&& link.local_state == if remote_attach.incomplete_unsettled {
                    LinkState::IncompleteAttachExchanged
                } else {
                    LinkState::Attached
                }
                &&& link.input_handle == Some(remote_attach.handle)
                &&& link.source == remote_attach.source
                &&& link.snd_settle_mode == remote_attach.snd_settle_mode
                &&& link.rcv_settle_mode == self.chosen_mode(remote_attach.rcv_settle_mode)
                &&& link.flow_state.delivery_count == remote_attach.initial_delivery_count->0
                &&& match self.credit_mode {
                    CreditMode::Auto(c) => flow is Some && flow->0.link_credit == Some(c)
                        && link.flow_state.link_credit == c,
                    CreditMode::Manual => flow is None && link.flow_state.link_credit == 0,
                }
            },
            final(session).local_state == old(session).local_state,
            final(session).sent == old(session).sent,
            final(session).granted == old(session).granted,
            final(session).remote_incoming_window == old(session).remote_incoming_window,
    {
        let rcv_settle_mode = if self.supported_rcv_settle_modes.supports(remote_attach.rcv_settle_mode) {
            remote_attach.rcv_settle_mode
        } else {
            self.fallback_rcv_settle_mode
        };
        match &remote_attach.target {
            Some(TargetArchetype::Coordinator(_)) => {
                return Err(
                    LinkAcceptorError::Local(
                        AttachError::not_implemented(Some("Coordinator is not implemented".to_string())),
                    ),
                );
            },
            _ => {},
        }
        let output_handle = match session.allocate_link(remote_attach.name.clone(), Some(remote_attach.handle)) {
            Ok(h) => h,
            Err(e) => return Err(LinkAcceptorError::AllocLink(e)),
        };
        let max_message_size = match self.max_message_size {
            Some(m) => m,
            None => 0,
        };
        let mut link = ReceiverLink::new(
            remote_attach.name.clone(),
            Some(output_handle),
            remote_attach.snd_settle_mode,
            rcv_settle_mode,
            None,
            None,
            max_message_size,
        );
        let ghost remote = remote_attach;
        match link.on_incoming_attach_as_acceptor(remote_attach) {
            Ok(()) => {},
            Err(e) => return Err(LinkAcceptorError::Attach(e)),
        }
        match link.target.take() {
            Some(TargetArchetype::Target(t)) => {
                link.target = Some(
                    TargetArchetype::Target(
                        Target { capabilities: copy_caps(&self.target_capabilities), ..t },
                    ),
                );
            },
            other => {
                link.target = other;
            },
        }
        link.local_state = if link.local_state == LinkState::IncompleteAttachReceived {
            LinkState::IncompleteAttachExchanged
        } else {
            LinkState::Attached
        };
        let flow = match self.credit_mode {
            CreditMode::Auto(c) => match link.set_credit(c) {
                Ok(f) => Some(f),
                Err(_) => return Err(LinkAcceptorError::Local(AttachError::IllegalSessionState)),
            },
            CreditMode::Manual => None,
        };
        assert(session.links@ =~= old(session).links@.push(session.links@.last()));
        let answer = Attach {
            name: link.name.clone(),
            handle: output_handle,
            role: Role::Receiver,
            snd_settle_mode: link.snd_settle_mode,
            rcv_settle_mode: link.rcv_settle_mode,
            source: copy_source(&link.source),
            target: copy_target(&link.target),
            unsettled: None,
            incomplete_unsettled: false,
            initial_delivery_count: None,
            max_message_size: Some(link.max_message_size),
        };
        Ok((link, answer, flow))
    }
}

} // verus!
