//! Sessions: the begin/end exchange, the two-way transfer windows, link
//! handle allocation and the mapping of outgoing delivery ids.
use vstd::prelude::*;
use std::collections::BTreeMap;
use crate::definitions::{DeliveryNumber, Handle, Symbol};
use crate::connection::{channel_used, Connection, ConnectionState};
use crate::error::{AllocLinkError, AllocSessionError, SessionError};
use crate::link::{seq_add, wrapping_seq_add, SEQ_MOD};
use crate::transaction::TransactionManagerBuilder;

verus! {

/// Default incoming and outgoing window of a session.
pub const DEFAULT_WINDOW: u32 = 2048;

/// Default buffer size of the channels a session uses.
pub const DEFAULT_SESSION_MUX_BUFFER_SIZE: usize = 65535;

/// State of a session endpoint.
#[derive(Clone, Copy, Debug, PartialEq, Eq, Structural)]
pub enum SessionState {
    Unmapped,
    BeginSent,
    BeginReceived,
    Mapped,
    EndSent,
    EndReceived,
    Discarding,
}

/// A `begin` performative.
#[derive(Clone, Copy, Debug, PartialEq, Eq, Structural)]
pub struct Begin {
    pub remote_channel: Option<u16>,
    pub next_outgoing_id: u32,
    pub incoming_window: u32,
    pub outgoing_window: u32,
    pub handle_max: Handle,
}

/// The session-level fields of a `flow` performative.
#[derive(Clone, Copy, Debug, PartialEq, Eq, Structural)]
pub struct SessionFlow {
    pub next_incoming_id: Option<u32>,
    pub incoming_window: u32,
    pub next_outgoing_id: u32,
    pub outgoing_window: u32,
}

/// Why a session-level step was refused.
#[derive(Clone, Copy, Debug, PartialEq, Eq, Structural)]
pub enum SessionStateError {
    /// The step is not allowed in the session's state.
    IllegalState,
    /// The peer's incoming window is used up: the transfer must wait for a `flow`.
    RemoteWindowExhausted,
    /// A protocol error that ends the session.
    Session(SessionError),
}

/// Options of a new session.
#[derive(Debug)]
pub struct Builder {
    pub next_outgoing_id: u32,
    pub incoming_window: u32,
    pub outgoing_window: u32,
    pub handle_max: Handle,
    pub offered_capabilities: Option<Vec<Symbol>>,
    pub desired_capabilities: Option<Vec<Symbol>>,
    pub properties: Option<Vec<u8>>,
    pub buffer_size: usize,
    pub txn_manager_builder: TransactionManagerBuilder,
}

impl Builder {
    /// The defaults: first transfer-id 0, both windows 2048, any handle,
    /// no capabilities or properties.
    pub fn new() -> (r: Builder)
        ensures
            r.next_outgoing_id == 0,
            r.incoming_window == DEFAULT_WINDOW,
            r.outgoing_window == DEFAULT_WINDOW,
            r.handle_max == u32::MAX,
            r.offered_capabilities is None,
            r.desired_capabilities is None,
            r.properties is None,
            r.buffer_size == DEFAULT_SESSION_MUX_BUFFER_SIZE,
            r.txn_manager_builder == TransactionManagerBuilder::new_spec(),
    {
        Builder {
            next_outgoing_id: 0,
            incoming_window: DEFAULT_WINDOW,
            outgoing_window: DEFAULT_WINDOW,
            handle_max: u32::MAX,
            offered_capabilities: None,
            desired_capabilities: None,
            properties: None,
            buffer_size: DEFAULT_SESSION_MUX_BUFFER_SIZE,
            txn_manager_builder: TransactionManagerBuilder::new(),
        }
    }

    pub fn next_outgoing_id(self, value: u32) -> (r: Builder)
        ensures
            r == (Builder { next_outgoing_id: value, ..self }),
    {
        Builder { next_outgoing_id: value, ..self }
    }

    pub fn incoming_window(self, value: u32) -> (r: Builder)
        ensures
            r == (Builder { incoming_window: value, ..self }),
    {
        Builder { incoming_window: value, ..self }
    }

    pub fn outgoing_widnow(self, value: u32) -> (r: Builder)
        ensures
            r == (Builder { outgoing_window: value, ..self }),
    {
        Builder { outgoing_window: value, ..self }
    }

    pub fn handle_max(self, value: Handle) -> (r: Builder)
        ensures
            r == (Builder { handle_max: value, ..self }),
    {
        Builder { handle_max: value, ..self }
    }

    /// Adds one offered capability after those already set.
    pub fn add_offered_capabilities(self, capability: Symbol) -> (r: Builder)
        ensures
            r.offered_capabilities is Some,
            r.offered_capabilities->0@ == match self.offered_capabilities {
                Some(v) => v@,
                None => Seq::<Symbol>::empty(),
            }.push(capability),
            r.desired_capabilities == self.desired_capabilities,
            r.next_outgoing_id == self.next_outgoing_id,
            r.incoming_window == self.incoming_window,
            r.outgoing_window == self.outgoing_window,
            r.handle_max == self.handle_max,
            r.properties == self.properties,
            r.buffer_size == self.buffer_size,
            r.txn_manager_builder == self.txn_manager_builder,
    {
        let mut b = self;
        match b.offered_capabilities {
            Some(mut caps) => {
                caps.push(capability);
                b.offered_capabilities = Some(caps);
            },
            None => {
                let mut caps: Vec<Symbol> = Vec::new();
                caps.push(capability);
                b.offered_capabilities = Some(caps);
            },
        }
        b
    }

    pub fn set_offered_capabilities(self, capabilities: Vec<Symbol>) -> (r: Builder)
        ensures
            r == (Builder { offered_capabilities: Some(capabilities), ..self }),
    {
        Builder { offered_capabilities: Some(capabilities), ..self }
    }

    /// Adds one desired capability after those already set.
    pub fn add_desired_capabilities(self, capability: Symbol) -> (r: Builder)
        ensures
            r.desired_capabilities is Some,
            r.desired_capabilities->0@ == match self.desired_capabilities {
                Some(v) => v@,
                None => Seq::<Symbol>::empty(),
            }.push(capability),
            r.offered_capabilities == self.offered_capabilities,
            r.next_outgoing_id == self.next_outgoing_id,
            r.incoming_window == self.incoming_window,
            r.outgoing_window == self.outgoing_window,
            r.handle_max == self.handle_max,
            r.properties == self.properties,
            r.buffer_size == self.buffer_size,
            r.txn_manager_builder == self.txn_manager_builder,
    {
        let mut b = self;
        match b.desired_capabilities {
            Some(mut caps) => {
                caps.push(capability);
                b.desired_capabilities = Some(caps);
            },
            None => {
                let mut caps: Vec<Symbol> = Vec::new();
                caps.push(capability);
                b.desired_capabilities = Some(caps);
            },
        }
        b
    }

    pub fn set_desired_capabilities(self, capabilities: Vec<Symbol>) -> (r: Builder)
        ensures
            r == (Builder { desired_capabilities: Some(capabilities), ..self }),
    {
        Builder { desired_capabilities: Some(capabilities), ..self }
    }

    /// Sets the session properties (an encoded map).
    pub fn properties(self, properties: Vec<u8>) -> (r: Builder)
        ensures
            r == (Builder { properties: Some(properties), ..self }),
    {
        Builder { properties: Some(properties), ..self }
    }

    pub fn buffer_size(self, buffer_size: usize) -> (r: Builder)
        ensures
            r == (Builder { buffer_size, ..self }),
    {
        Builder { buffer_size, ..self }
    }

    pub fn transaction_manager_builder(self, txn_manager_builder: TransactionManagerBuilder) -> (r:
        Builder)
        ensures
            r == (Builder { txn_manager_builder, ..self }),
    {
        Builder { txn_manager_builder, ..self }
    }
}

/// A session acceptor: the options with which incoming sessions are begun.
#[derive(Debug)]
pub struct SessionAcceptor(pub Builder);

impl SessionAcceptor {
    /// A builder of the acceptor's options, starting from the defaults.
    pub fn builder() -> (r: Builder)
        ensures
            r.next_outgoing_id == 0,
            r.incoming_window == DEFAULT_WINDOW,
            r.outgoing_window == DEFAULT_WINDOW,
    {
        Builder::new()
    }
}

/// A link known to the session.
#[derive(Debug)]
pub struct LinkEntry {
    pub name: String,
    pub output_handle: Handle,
    pub input_handle: Option<Handle>,
}

/// An outgoing unsettled delivery: the link that sent it, and its tag.
pub type DeliveryRoute = (Handle, Vec<u8>);

/// The session endpoint.
pub struct Session {
    pub outgoing_channel: u16,
    pub incoming_channel: Option<u16>,
    pub local_state: SessionState,
    pub initial_outgoing_id: u32,
    pub next_outgoing_id: u32,
    pub incoming_window: u32,
    pub outgoing_window: u32,
    pub handle_max: Handle,
    pub next_incoming_id: u32,
    pub remote_incoming_window: u32,
    pub remote_outgoing_window: u32,
    pub links: Vec<LinkEntry>,
    pub delivery_tag_by_id: BTreeMap<DeliveryNumber, DeliveryRoute>,
    /// Transfers sent so far.
    pub sent: Ghost<nat>,
    /// Transfers the peer has allowed so far: its first incoming window and
    /// every later increase of it announced by `flow`.
    pub granted: Ghost<nat>,
}

impl Session {
    /// The transfers sent never exceed what the peer allowed.
    pub open spec fn flow_accounted(&self) -> bool {
        self.sent@ + self.remote_incoming_window <= self.granted@
    }

    /// A new, unmapped session on an outgoing channel.
    pub fn new(builder: &Builder, outgoing_channel: u16) -> (r: Session)
        ensures
            r.outgoing_channel == outgoing_channel,
            r.incoming_channel is None,
            r.local_state == SessionState::Unmapped,
            r.initial_outgoing_id == builder.next_outgoing_id,
            r.next_outgoing_id == builder.next_outgoing_id,
            r.incoming_window == builder.incoming_window,
            r.outgoing_window == builder.outgoing_window,
            r.handle_max == builder.handle_max,
            r.next_incoming_id == 0,
            r.remote_incoming_window == 0,
            r.remote_outgoing_window == 0,
            r.links@.len() == 0,
            r.delivery_tag_by_id@ == Map::<DeliveryNumber, DeliveryRoute>::empty(),
            r.sent@ == 0,
            r.granted@ == 0,
            r.flow_accounted(),
    {
        Session {
            outgoing_channel,
            incoming_channel: None,
            local_state: SessionState::Unmapped,
            initial_outgoing_id: builder.next_outgoing_id,
            next_outgoing_id: builder.next_outgoing_id,
            incoming_window: builder.incoming_window,
            outgoing_window: builder.outgoing_window,
            handle_max: builder.handle_max,
            next_incoming_id: 0,
            remote_incoming_window: 0,
            remote_outgoing_window: 0,
            links: Vec::new(),
            delivery_tag_by_id: BTreeMap::new(),
            sent: Ghost(0),
            granted: Ghost(0),
        }
    }

    /// Makes this end's `begin`: a first one moves the session to
    /// `BeginSent`, an answer to the peer's moves it to `Mapped` and names
    /// the peer's channel.
    pub fn send_begin(&mut self) -> (r: Result<Begin, SessionStateError>)
        ensures
            old(self).local_state == SessionState::Unmapped ==> final(self).local_state
                == SessionState::BeginSent && r == Ok::<Begin, SessionStateError>(
                Begin {
                    remote_channel: None,
                    next_outgoing_id: old(self).next_outgoing_id,
                    incoming_window: old(self).incoming_window,
                    outgoing_window: old(self).outgoing_window,
                    handle_max: old(self).handle_max,
                },
            ),
            old(self).local_state == SessionState::BeginReceived ==> final(self).local_state
                == SessionState::Mapped && r == Ok::<Begin, SessionStateError>(
                Begin {
                    remote_channel: old(self).incoming_channel,
                    next_outgoing_id: old(self).next_outgoing_id,
                    incoming_window: old(self).incoming_window,
                    outgoing_window: old(self).outgoing_window,
                    handle_max: old(self).handle_max,
                },
            ),
            old(self).local_state != SessionState::Unmapped && old(self).local_state
                != SessionState::BeginReceived ==> r == Err::<Begin, SessionStateError>(
                SessionStateError::IllegalState,
            ) && final(self).local_state == old(self).local_state,
            session_same_but_state(*old(self), *final(self)),
    {
        let remote_channel = match self.local_state {
            SessionState::Unmapped => {
                self.local_state = SessionState::BeginSent;
                None
            },
            SessionState::BeginReceived => {
                self.local_state = SessionState::Mapped;
                self.incoming_channel
            },
            _ => return Err(SessionStateError::IllegalState),
        };
        Ok(
            Begin {
                remote_channel,
                next_outgoing_id: self.next_outgoing_id,
                incoming_window: self.incoming_window,
                outgoing_window: self.outgoing_window,
                handle_max: self.handle_max,
            },
        )
    }

    /// Takes in the peer's `begin` on an incoming channel: the session maps
    /// (or waits to answer), and learns the peer's windows and first
    /// transfer-id.
    pub fn on_incoming_begin(&mut self, channel: u16, begin: &Begin) -> (r: Result<(), SessionStateError>)
        requires
            old(self).flow_accounted(),
        ensures
            final(self).flow_accounted(),
            (old(self).local_state == SessionState::BeginSent || old(self).local_state
                == SessionState::Unmapped) ==> {
                &&& r is Ok
                &&& final(self).local_state == if old(self).local_state == SessionState::BeginSent {
                    SessionState::Mapped
                } else {
                    SessionState::BeginReceived
                }
                &&& final(self).incoming_channel == Some(channel)
                &&& final(self).next_incoming_id == begin.next_outgoing_id
                &&& final(self).remote_incoming_window == begin.incoming_window
                &&& final(self).remote_outgoing_window == begin.outgoing_window
                &&& final(self).next_outgoing_id == old(self).next_outgoing_id
                &&& final(self).incoming_window == old(self).incoming_window
            },
            !(old(self).local_state == SessionState::BeginSent || old(self).local_state
                == SessionState::Unmapped) ==> r == Err::<(), SessionStateError>(
                SessionStateError::IllegalState,
            ) && final(self).local_state == old(self).local_state
                && final(self).remote_incoming_window == old(self).remote_incoming_window,
            final(self).sent == old(self).sent,
            final(self).outgoing_channel == old(self).outgoing_channel,
            final(self).initial_outgoing_id == old(self).initial_outgoing_id,
            final(self).outgoing_window == old(self).outgoing_window,
            final(self).handle_max == old(self).handle_max,
            final(self).links == old(self).links,
    {
        match self.local_state {
            SessionState::BeginSent => self.local_state = SessionState::Mapped,
            SessionState::Unmapped => self.local_state = SessionState::BeginReceived,
            _ => return Err(SessionStateError::IllegalState),
        }
        self.incoming_channel = Some(channel);
        self.next_incoming_id = begin.next_outgoing_id;
        self.remote_incoming_window = begin.incoming_window;
        self.remote_outgoing_window = begin.outgoing_window;
        self.granted = Ghost(self.sent@ + begin.incoming_window as nat);
        Ok(())
    }

    /// Sends one transfer frame. The first transfer of a delivery takes the
    /// next transfer-id as its delivery-id. Refused while the peer's
    /// incoming window is zero.
    pub fn on_outgoing_transfer(&mut self, first: bool) -> (r: Result<
        Option<DeliveryNumber>,
        SessionStateError,
    >)
        requires
            old(self).flow_accounted(),
        ensures
            final(self).flow_accounted(),
            old(self).local_state != SessionState::Mapped ==> r == Err::<
                Option<DeliveryNumber>,
                SessionStateError,
            >(SessionStateError::IllegalState) && final(self).next_outgoing_id == old(
                self).next_outgoing_id && final(self).sent == old(self).sent,
            old(self).local_state == SessionState::Mapped && old(self).remote_incoming_window == 0
                ==> r == Err::<Option<DeliveryNumber>, SessionStateError>(
                SessionStateError::RemoteWindowExhausted,
            ) && final(self).next_outgoing_id == old(self).next_outgoing_id && final(self).sent
                == old(self).sent,
            old(self).local_state == SessionState::Mapped && old(self).remote_incoming_window > 0
                ==> {
                &&& r == Ok::<Option<DeliveryNumber>, SessionStateError>(
                    if first {
                        Some(old(self).next_outgoing_id)
                    } else {
                        None
                    },
                )
                &&& final(self).next_outgoing_id == seq_add(old(self).next_outgoing_id, 1)
                &&& final(self).remote_incoming_window == old(self).remote_incoming_window - 1
                &&& final(self).sent@ == old(self).sent@ + 1
            },
            final(self).granted == old(self).granted,
            final(self).local_state == old(self).local_state,
    {
        if self.local_state != SessionState::Mapped {
            return Err(SessionStateError::IllegalState);
        }
        if self.remote_incoming_window == 0 {
            return Err(SessionStateError::RemoteWindowExhausted);
        }
        let id = self.next_outgoing_id;
        self.next_outgoing_id = wrapping_seq_add(self.next_outgoing_id, 1);
        self.remote_incoming_window = self.remote_incoming_window - 1;
        self.sent = Ghost(self.sent@ + 1);
        Ok(
            if first {
                Some(id)
            } else {
                None
            },
        )
    }

    /// Takes in one transfer frame from the peer. A transfer beyond the
    /// incoming window is a window violation.
    pub fn on_incoming_transfer(&mut self) -> (r: Result<(), SessionStateError>)
        ensures
            old(self).incoming_window == 0 ==> r == Err::<(), SessionStateError>(
                SessionStateError::Session(SessionError::WindowViolation),
            ) && final(self).incoming_window == old(self).incoming_window
                && final(self).next_incoming_id == old(self).next_incoming_id,
            old(self).incoming_window > 0 ==> r is Ok && final(self).incoming_window == old(
                self).incoming_window - 1 && final(self).next_incoming_id == seq_add(
                old(self).next_incoming_id,
                1,
            ),
            final(self).sent == old(self).sent,
            final(self).granted == old(self).granted,
            final(self).remote_incoming_window == old(self).remote_incoming_window,
    {
        if self.incoming_window == 0 {
            return Err(SessionStateError::Session(SessionError::WindowViolation));
        }
        self.incoming_window = self.incoming_window - 1;
        self.next_incoming_id = wrapping_seq_add(self.next_incoming_id, 1);
        Ok(())
    }

    /// Takes in the peer's session flow state. Its incoming window, seen
    /// from here, is `next-incoming-id(peer) + incoming-window(peer) -
    /// next-outgoing-id`, where a missing id stands for this end's first
    /// transfer-id.
    pub fn on_incoming_flow(&mut self, flow: &SessionFlow)
        requires
            old(self).flow_accounted(),
        ensures
            final(self).flow_accounted(),
            final(self).remote_incoming_window == remote_window(
                match flow.next_incoming_id {
                    Some(n) => n,
                    None => old(self).initial_outgoing_id,
                },
                flow.incoming_window,
                old(self).next_outgoing_id,
            ),
            final(self).remote_outgoing_window == flow.outgoing_window,
            final(self).next_outgoing_id == old(self).next_outgoing_id,
            final(self).sent == old(self).sent,
            final(self).granted@ == old(self).granted@ + if final(self).remote_incoming_window
                > old(self).remote_incoming_window {
                (final(self).remote_incoming_window - old(self).remote_incoming_window) as nat
            } else {
                0
            },
            final(self).local_state == old(self).local_state,
    {
        let next_in = match flow.next_incoming_id {
            Some(n) => n,
            None => self.initial_outgoing_id,
        };
        let limit = wrapping_seq_add(next_in, flow.incoming_window);
        let window: u32 = if limit >= self.next_outgoing_id {
            limit - self.next_outgoing_id
        } else {
            ((limit as u64 + SEQ_MOD) - self.next_outgoing_id as u64) as u32
        };
        if window > self.remote_incoming_window {
            self.granted = Ghost(self.granted@ + (window - self.remote_incoming_window) as nat);
        }
        self.remote_incoming_window = window;
        self.remote_outgoing_window = flow.outgoing_window;
    }

    /// The session fields of this end's next `flow`.
    pub fn flow_state(&self) -> (r: SessionFlow)
        ensures
            r.next_incoming_id == (if self.incoming_channel is Some {
                Some(self.next_incoming_id)
            } else {
                None
            }),
            r.incoming_window == self.incoming_window,
            r.next_outgoing_id == self.next_outgoing_id,
            r.outgoing_window == self.outgoing_window,
    {
        SessionFlow {
            next_incoming_id: if self.incoming_channel.is_some() {
                Some(self.next_incoming_id)
            } else {
                None
            },
            incoming_window: self.incoming_window,
            next_outgoing_id: self.next_outgoing_id,
            outgoing_window: self.outgoing_window,
        }
    }
}

/// Two sessions agree on everything but their state.
pub open spec fn session_same_but_state(a: Session, b: Session) -> bool {
    &&& a.outgoing_channel == b.outgoing_channel
    &&& a.incoming_channel == b.incoming_channel
    &&& a.initial_outgoing_id == b.initial_outgoing_id
    &&& a.next_outgoing_id == b.next_outgoing_id
    &&& a.incoming_window == b.incoming_window
    &&& a.outgoing_window == b.outgoing_window
    &&& a.handle_max == b.handle_max
    &&& a.next_incoming_id == b.next_incoming_id
    &&& a.remote_incoming_window == b.remote_incoming_window
    &&& a.remote_outgoing_window == b.remote_outgoing_window
    &&& a.links == b.links
    &&& a.delivery_tag_by_id == b.delivery_tag_by_id
    &&& a.sent == b.sent
    &&& a.granted == b.granted
}

/// The peer's incoming window seen from this end.
pub open spec fn remote_window(next_incoming: u32, incoming_window: u32, next_outgoing: u32) -> u32 {
    ((seq_add(next_incoming, incoming_window as int) as int - next_outgoing as int + SEQ_MOD as int)
        % (SEQ_MOD as int)) as u32
}

/// Whether a link of the session uses an output handle.
pub open spec fn handle_used(links: Seq<LinkEntry>, h: Handle) -> bool {
    exists|i: int| 0 <= i < links.len() && #[trigger] links[i].output_handle == h
}

/// Whether a link of the session has a name.
pub open spec fn name_used(links: Seq<LinkEntry>, name: Seq<char>) -> bool {
    exists|i: int| 0 <= i < links.len() && #[trigger] links[i].name@ == name
}

/// No two links of the session share a name.
pub open spec fn names_unique(links: Seq<LinkEntry>) -> bool {
    forall|i: int, j: int|
        0 <= i < links.len() && 0 <= j < links.len() && i != j ==> #[trigger] links[i].name@
            != #[trigger] links[j].name@
}

fn find_name(links: &Vec<LinkEntry>, name: &String) -> (r: bool)
    ensures
        r == name_used(links@, name@),
{
    let mut i: usize = 0;
    while i < links.len()
        invariant
            0 <= i <= links@.len(),
            forall|k: int| 0 <= k < i ==> #[trigger] links@[k].name@ != name@,
        decreases links.len() - i,
    {
        if links[i].name == *name {
            return true;
        }
        i += 1;
    }
    false
}

fn find_handle(links: &Vec<LinkEntry>, h: Handle) -> (r: bool)
    ensures
        r == handle_used(links@, h),
{
    let mut i: usize = 0;
    while i < links.len()
        invariant
            0 <= i <= links@.len(),
            forall|k: int| 0 <= k < i ==> #[trigger] links@[k].output_handle != h,
        decreases links.len() - i,
    {
        if links[i].output_handle == h {
            return true;
        }
        i += 1;
    }
    false
}

impl Session {
    /// Gives a new link the lowest free output handle not above
    /// `handle_max`. A name already in use on the session is refused, and
    /// so is any link while the session is not mapped.
    pub fn allocate_link(&mut self, name: String, input_handle: Option<Handle>) -> (r: Result<
        Handle,
        AllocLinkError,
    >)
        requires
            names_unique(old(self).links@),
        ensures
            names_unique(final(self).links@),
            old(self).local_state != SessionState::Mapped ==> r == Err::<Handle, AllocLinkError>(
                AllocLinkError::IllegalState,
            ) && final(self).links == old(self).links,
            old(self).local_state == SessionState::Mapped && name_used(old(self).links@, name@) ==> r
                == Err::<Handle, AllocLinkError>(AllocLinkError::DuplicatedLinkName) && final(
                self).links == old(self).links,
            old(self).local_state == SessionState::Mapped && !name_used(old(self).links@, name@) ==> {
                ||| {
                    &&& r is Ok
                    &&& !handle_used(old(self).links@, r->Ok_0)
                    &&& r->Ok_0 <= old(self).handle_max
                    &&& forall|h: Handle| h < r->Ok_0 ==> handle_used(old(self).links@, h)
                    &&& final(self).links@.len() == old(self).links@.len() + 1
                    &&& final(self).links@.drop_last() == old(self).links@
                    &&& final(self).links@.last().name@ == name@
                    &&& final(self).links@.last().output_handle == r->Ok_0
                    &&& final(self).links@.last().input_handle == input_handle
                }
                ||| {
                    &&& r == Err::<Handle, AllocLinkError>(AllocLinkError::HandleMaxReached)
                    &&& forall|h: Handle| h <= old(self).handle_max ==> handle_used(old(self).links@, h)
                    &&& final(self).links == old(self).links
                }
            },
            final(self).local_state == old(self).local_state,
            final(self).next_outgoing_id == old(self).next_outgoing_id,
            final(self).remote_incoming_window == old(self).remote_incoming_window,
            final(self).sent == old(self).sent,
            final(self).granted == old(self).granted,
    {
        if self.local_state != SessionState::Mapped {
            return Err(AllocLinkError::IllegalState);
        }
        if find_name(&self.links, &name) {
            return Err(AllocLinkError::DuplicatedLinkName);
        }
        let mut h: u32 = 0;
        loop
            invariant
                h <= self.handle_max,
                forall|k: Handle| k < h ==> handle_used(self.links@, k),
                self.links == old(self).links,
                self.handle_max == old(self).handle_max,
                !name_used(self.links@, name@),
                names_unique(self.links@),
                self.local_state == old(self).local_state,
                old(self).local_state == SessionState::Mapped,
                !name_used(old(self).links@, name@),
                self.next_outgoing_id == old(self).next_outgoing_id,
                self.remote_incoming_window == old(self).remote_incoming_window,
                self.sent == old(self).sent,
                self.granted == old(self).granted,
            decreases self.handle_max - h,
        {
            if !find_handle(&self.links, h) {
                let ghost before = self.links@;
                self.links.push(LinkEntry { name, output_handle: h, input_handle });
                proof {
                    assert(self.links@.drop_last() =~= before);
                    assert forall|i: int, j: int|
                        0 <= i < self.links@.len() && 0 <= j < self.links@.len() && i != j
                            implies #[trigger] self.links@[i].name@ != #[trigger] self.links@[j].name@ by {
                        if i == before.len() as int {
                            assert(before[j].name@ != self.links@[i].name@);
                        } else if j == before.len() as int {
                            assert(before[i].name@ != self.links@[j].name@);
                        }
                    }
                }
                return Ok(h);
            }
            if h == self.handle_max {
                assert forall|k: Handle| k <= old(self).handle_max implies handle_used(
                    old(self).links@,
                    k,
                ) by {
                    if k < h {
                    }
                }
                return Err(AllocLinkError::HandleMaxReached);
            }
            h = h + 1;
        }
    }

    /// Forgets the link of an output handle.
    pub fn deallocate_link(&mut self, output_handle: Handle)
        requires
            names_unique(old(self).links@),
        ensures
            names_unique(final(self).links@),
            !handle_used(final(self).links@, output_handle),
            forall|i: int|
                0 <= i < old(self).links@.len() && old(self).links@[i].output_handle != output_handle
                    ==> #[trigger] final(self).links@.contains(old(self).links@[i]),
            forall|i: int|
                0 <= i < final(self).links@.len() ==> old(self).links@.contains(
                    #[trigger] final(self).links@[i],
                ),
            final(self).local_state == old(self).local_state,
            final(self).sent == old(self).sent,
            final(self).granted == old(self).granted,
            final(self).remote_incoming_window == old(self).remote_incoming_window,
            final(self).next_outgoing_id == old(self).next_outgoing_id,
    {
        let ghost all = self.links@;
        let mut kept: Vec<LinkEntry> = Vec::new();
        let n = self.links.len();
        let mut i: usize = 0;
        while i < n
            invariant
                n == all.len(),
                0 <= i <= n,
                self.links@ == all.skip(i as int),
                names_unique(all),
                forall|k: int| 0 <= k < kept@.len() ==> #[trigger] kept@[k].output_handle != output_handle,
                forall|k: int| 0 <= k < kept@.len() ==> all.take(i as int).contains(#[trigger] kept@[k]),
                forall|k: int|
                    0 <= k < i && all[k].output_handle != output_handle ==> kept@.contains(
                        #[trigger] all[k],
                    ),
                forall|a: int, b: int|
                    0 <= a < kept@.len() && 0 <= b < kept@.len() && a != b ==> #[trigger] kept@[a].name@
                        != #[trigger] kept@[b].name@,
                forall|a: int, k: int|
                    0 <= a < kept@.len() && i <= k < n ==> #[trigger] kept@[a].name@
                        != #[trigger] all[k].name@,
                self.local_state == old(self).local_state,
                self.sent == old(self).sent,
                self.granted == old(self).granted,
                self.remote_incoming_window == old(self).remote_incoming_window,
                self.next_outgoing_id == old(self).next_outgoing_id,
            decreases n - i,
        {
            let e = self.links.remove(0);
            assert(e == all[i as int]);
            assert(self.links@ =~= all.skip(i + 1));
            let ghost before = kept@;
            if e.output_handle != output_handle {
                kept.push(e);
                proof {
                    assert forall|k: int| 0 <= k < kept@.len() implies all.take(i + 1).contains(
                        #[trigger] kept@[k],
                    ) by {
                        if k < before.len() {
                            let j = choose|j: int| 0 <= j < i && all.take(i as int)[j] == before[k];
                            assert(all.take(i + 1)[j] == before[k]);
                        } else {
                            assert(all.take(i + 1)[i as int] == all[i as int]);
                        }
                    }
                    assert forall|k: int|
                        0 <= k < i + 1 && all[k].output_handle != output_handle implies kept@.contains(
                            #[trigger] all[k],
                        ) by {
                        if k < i {
                            let j = choose|j: int| 0 <= j < before.len() && before[j] == all[k];
                            assert(kept@[j] == all[k]);
                        } else {
                            assert(kept@[before.len() as int] == all[k]);
                        }
                    }
                    assert forall|a: int, b: int|
                        0 <= a < kept@.len() && 0 <= b < kept@.len() && a != b implies #[trigger] kept@[a].name@
                            != #[trigger] kept@[b].name@ by {
                        if a == before.len() as int {
                            assert(before[b].name@ != all[i as int].name@);
                        } else if b == before.len() as int {
                            assert(before[a].name@ != all[i as int].name@);
                        }
                    }
                    assert forall|a: int, k: int|
                        0 <= a < kept@.len() && i + 1 <= k < n implies #[trigger] kept@[a].name@
                            != #[trigger] all[k].name@ by {
                        if a == before.len() as int {
                            assert(all[i as int].name@ != all[k].name@);
                        }
                    }
                }
            } else {
                proof {
                    assert forall|k: int| 0 <= k < kept@.len() implies all.take(i + 1).contains(
                        #[trigger] kept@[k],
                    ) by {
                        let j = choose|j: int| 0 <= j < i && all.take(i as int)[j] == before[k];
                        assert(all.take(i + 1)[j] == before[k]);
                    }
                }
            }
            i += 1;
        }
        assert(all.take(n as int) =~= all);
        self.links = kept;
    }
}

/// Along any sequence of session steps the transfers sent stay within what
/// the peer allowed: its first incoming window plus every increase that its
/// `flow` frames announced.
pub proof fn lemma_flow_accounting(s: Session)
    requires
        s.flow_accounted(),
    ensures
        s.sent@ <= s.granted@,
{
}

/// Where an incoming `attach` goes.
#[derive(Clone, Copy, Debug, PartialEq, Eq, Structural)]
pub enum AttachRoute {
    /// To the local link of that name, under this output handle.
    ToLink(Handle),
    /// No local link has the name: to the link acceptor.
    ToAcceptor,
}

impl Session {
    /// Routes the peer's `attach` by link name, and records its handle as
    /// the input handle of the link it reaches.
    pub fn on_incoming_attach(&mut self, name: &String, input_handle: Handle) -> (r: AttachRoute)
        requires
            names_unique(old(self).links@),
        ensures
            names_unique(final(self).links@),
            !name_used(old(self).links@, name@) ==> r == AttachRoute::ToAcceptor && final(self).links
                == old(self).links,
            name_used(old(self).links@, name@) ==> exists|i: int|
                0 <= i < old(self).links@.len() && old(self).links@[i].name@ == name@ && r
                    == AttachRoute::ToLink(old(self).links@[i].output_handle) && final(self).links@
                    == old(self).links@.update(
                    i,
                    LinkEntry { input_handle: Some(input_handle), ..old(self).links@[i] },
                ),
            final(self).local_state == old(self).local_state,
            final(self).sent == old(self).sent,
            final(self).granted == old(self).granted,
            final(self).remote_incoming_window == old(self).remote_incoming_window,
    {
        let mut i: usize = 0;
        while i < self.links.len()
            invariant
                0 <= i <= self.links@.len(),
                self.links == old(self).links,
                forall|k: int| 0 <= k < i ==> #[trigger] self.links@[k].name@ != name@,
                names_unique(self.links@),
                self.local_state == old(self).local_state,
                self.sent == old(self).sent,
                self.granted == old(self).granted,
                self.remote_incoming_window == old(self).remote_incoming_window,
            decreases self.links.len() - i,
        {
            if self.links[i].name == *name {
                let ghost before = self.links@;
                let e = self.links.remove(i);
                assert(e == before[i as int]);
                let h = e.output_handle;
                let updated = LinkEntry { input_handle: Some(input_handle), ..e };
                self.links.insert(i, updated);
                proof {
                    assert(self.links@ =~= before.update(i as int, updated));
                    assert forall|a: int, b: int|
                        0 <= a < self.links@.len() && 0 <= b < self.links@.len() && a != b
                            implies #[trigger] self.links@[a].name@ != #[trigger] self.links@[b].name@ by {
                        assert(self.links@[a].name@ == before[a].name@);
                        assert(self.links@[b].name@ == before[b].name@);
                        assert(before[a].name@ != before[b].name@);
                    }
                }
                return AttachRoute::ToLink(h);
            }
            i += 1;
        }
        AttachRoute::ToAcceptor
    }

    /// The output handle of the link an incoming link frame is for, found
    /// by the handle the peer attached it under.
    pub fn route_by_input_handle(&self, input_handle: Handle) -> (r: Result<Handle, SessionStateError>)
        ensures
            r is Ok ==> exists|i: int|
                0 <= i < self.links@.len() && self.links@[i].input_handle == Some(input_handle)
                    && self.links@[i].output_handle == r->Ok_0,
            r is Err ==> r == Err::<Handle, SessionStateError>(
                SessionStateError::Session(SessionError::UnattachedHandle),
            ) && forall|i: int|
                0 <= i < self.links@.len() ==> self.links@[i].input_handle != Some(input_handle),
    {
        let mut i: usize = 0;
        while i < self.links.len()
            invariant
                0 <= i <= self.links@.len(),
                forall|k: int| 0 <= k < i ==> self.links@[k].input_handle != Some(input_handle),
            decreases self.links.len() - i,
        {
            if self.links[i].input_handle == Some(input_handle) {
                return Ok(self.links[i].output_handle);
            }
            i += 1;
        }
        Err(SessionStateError::Session(SessionError::UnattachedHandle))
    }
}

impl Builder {
    /// Begins a session on a connection: takes the lowest free channel,
    /// makes the session and its `begin`.
    pub fn begin(&self, connection: &mut Connection) -> (r: Result<(Session, Begin), AllocSessionError>)
        ensures
            old(connection).local_state != ConnectionState::Opened ==> r == Err::<
                (Session, Begin),
                AllocSessionError,
            >(AllocSessionError::IllegalState),
            r is Ok ==> {
                let (s, b) = r->Ok_0;
                &&& final(connection).channels@ == old(connection).channels@.push(s.outgoing_channel)
                &&& !channel_used(old(connection).channels@, s.outgoing_channel)
                &&& s.local_state == SessionState::BeginSent
                &&& s.flow_accounted()
                &&& b == (Begin {
                    remote_channel: None,
                    next_outgoing_id: self.next_outgoing_id,
                    incoming_window: self.incoming_window,
                    outgoing_window: self.outgoing_window,
                    handle_max: self.handle_max,
                })
            },
            r is Err ==> final(connection).channels == old(connection).channels,
            old(connection).local_state == ConnectionState::Opened && (exists|c: u16|
                c <= old(connection).channel_max && !channel_used(old(connection).channels@, c))
                ==> r is Ok,
    {
        let channel = match connection.allocate_session() {
            Ok(c) => c,
            Err(e) => return Err(e),
        };
        let mut session = Session::new(self, channel);
        let begin = match session.send_begin() {
            Ok(b) => b,
            Err(_) => return Err(AllocSessionError::IllegalState),
        };
        Ok((session, begin))
    }
}

/// Why an incoming session could not be accepted.
#[derive(Clone, Copy, Debug, PartialEq, Eq, Structural)]
pub enum AcceptSessionError {
    Alloc(AllocSessionError),
    State(SessionStateError),
}

impl SessionAcceptor {
    /// Accepts the session the peer began on `incoming_channel`: takes the
    /// lowest free channel, maps the incoming channel to it, takes in the
    /// peer's `begin` and makes the answering one.
    pub fn accept(&self, connection: &mut Connection, incoming_channel: u16, remote: &Begin) -> (r:
        Result<(Session, Begin), AcceptSessionError>)
        ensures
            old(connection).local_state != ConnectionState::Opened ==> r == Err::<
                (Session, Begin),
                AcceptSessionError,
            >(AcceptSessionError::Alloc(AllocSessionError::IllegalState)),
            r is Ok ==> {
                let (s, b) = r->Ok_0;
                &&& s.local_state == SessionState::Mapped
                &&& s.flow_accounted()
                &&& s.incoming_channel == Some(incoming_channel)
                &&& s.next_incoming_id == remote.next_outgoing_id
                &&& s.remote_incoming_window == remote.incoming_window
                &&& b.remote_channel == Some(incoming_channel)
                &&& b.next_outgoing_id == self.0.next_outgoing_id
                &&& final(connection).incoming_channels@ == old(connection).incoming_channels@.push(
                    (incoming_channel, s.outgoing_channel),
                )
            },
            old(connection).local_state == ConnectionState::Opened && (exists|c: u16|
                c <= old(connection).channel_max && !channel_used(old(connection).channels@, c))
                ==> r is Ok,
    {
        let channel = match connection.allocate_session() {
            Ok(c) => c,
            Err(e) => return Err(AcceptSessionError::Alloc(e)),
        };
        assert(channel_used(connection.channels@, channel)) by {
            assert(connection.channels@[connection.channels@.len() - 1] == channel);
        }
        match connection.on_incoming_begin(incoming_channel, channel) {
            Ok(()) => {},
            Err(_) => return Err(AcceptSessionError::State(SessionStateError::IllegalState)),
        }
        let mut session = Session::new(&self.0, channel);
        match session.on_incoming_begin(incoming_channel, remote) {
            Ok(()) => {},
            Err(e) => return Err(AcceptSessionError::State(e)),
        }
        let begin = match session.send_begin() {
            Ok(b) => b,
            Err(e) => return Err(AcceptSessionError::State(e)),
        };
        Ok((session, begin))
    }
}

/// The last id of a disposition's range: `last`, or `first` alone.
pub open spec fn range_end(first: DeliveryNumber, last: Option<DeliveryNumber>) -> DeliveryNumber {
    match last {
        Some(l) => l,
        None => first,
    }
}

/// The links and tags of the routed deliveries with ids `first`,
/// `first + 1`, ..., `first + n - 1`, in that order.
pub open spec fn routes_in(m: Map<DeliveryNumber, DeliveryRoute>, first: nat, n: nat) -> Seq<
    (Handle, Seq<u8>),
>
    decreases n,
{
    if n == 0 {
        Seq::empty()
    } else {
        let prev = routes_in(m, first, (n - 1) as nat);
        let id = (first + n - 1) as DeliveryNumber;
        if first + n - 1 <= u32::MAX && m.contains_key(id) {
            prev.push((m[id].0, m[id].1@))
        } else {
            prev
        }
    }
}

/// How many ids a disposition's range holds.
pub open spec fn range_len(first: DeliveryNumber, last: Option<DeliveryNumber>) -> nat {
    if range_end(first, last) >= first {
        (range_end(first, last) - first + 1) as nat
    } else {
        0
    }
}

/// The ids of a disposition's range.
pub open spec fn range_ids(first: DeliveryNumber, last: Option<DeliveryNumber>) -> Set<DeliveryNumber> {
    Set::new(|id: DeliveryNumber| first <= id && id <= range_end(first, last))
}

impl Session {
    /// Remembers which link sent an unsettled delivery under which tag, so
    /// that the peer's dispositions reach it; a delivery settled on sending
    /// is not remembered.
    pub fn record_outgoing_delivery(
        &mut self,
        delivery_id: DeliveryNumber,
        output_handle: Handle,
        delivery_tag: Vec<u8>,
        settled: bool,
    )
        ensures
            settled ==> final(self).delivery_tag_by_id == old(self).delivery_tag_by_id,
            !settled ==> final(self).delivery_tag_by_id@ == old(self).delivery_tag_by_id@.insert(
                delivery_id,
                (output_handle, delivery_tag),
            ),
            final(self).links == old(self).links,
            final(self).local_state == old(self).local_state,
            final(self).sent == old(self).sent,
            final(self).granted == old(self).granted,
            final(self).remote_incoming_window == old(self).remote_incoming_window,
    {
        broadcast use vstd::laws_cmp::group_laws_cmp;

        if !settled {
            self.delivery_tag_by_id.insert(delivery_id, (output_handle, delivery_tag));
        }
    }

    /// Resolves the peer's disposition of `first..=last` to the links and
    /// tags of those deliveries, by ascending id; a settling disposition
    /// forgets them.
    pub fn on_incoming_disposition(
        &mut self,
        first: DeliveryNumber,
        last: Option<DeliveryNumber>,
        settled: bool,
    ) -> (r: Vec<(Handle, Vec<u8>)>)
        ensures
            r@.map_values(|p: (Handle, Vec<u8>)| (p.0, p.1@)) == routes_in(
                old(self).delivery_tag_by_id@,
                first as nat,
                range_len(first, last),
            ),
            settled ==> final(self).delivery_tag_by_id@ == old(self).delivery_tag_by_id@.remove_keys(
                range_ids(first, last),
            ),
            !settled ==> final(self).delivery_tag_by_id == old(self).delivery_tag_by_id,
            final(self).links == old(self).links,
            final(self).local_state == old(self).local_state,
            final(self).sent == old(self).sent,
            final(self).granted == old(self).granted,
            final(self).remote_incoming_window == old(self).remote_incoming_window,
    {
        broadcast use vstd::laws_cmp::group_laws_cmp, vstd::std_specs::btree::group_btree_axioms;

        let ghost m0 = self.delivery_tag_by_id@;
        let hi: u32 = match last {
            Some(l) => l,
            None => first,
        };
        let mut out: Vec<(Handle, Vec<u8>)> = Vec::new();
        if hi < first {
            proof {
                assert(self.delivery_tag_by_id@ =~= m0.remove_keys(range_ids(first, last)));
            }
            return out;
        }
        let n: u64 = hi as u64 - first as u64 + 1;
        let mut k: u64 = 0;
        proof {
            assert(self.delivery_tag_by_id@ =~= m0.remove_keys(
                Set::new(|id: DeliveryNumber| first <= id && (id as int) < first as int),
            ));
        }
        while k < n
            invariant
                n == range_len(first, last),
                hi == range_end(first, last),
                first as int + n - 1 == hi as int,
                0 <= k <= n,
                m0 == old(self).delivery_tag_by_id@,
                out@.map_values(|p: (Handle, Vec<u8>)| (p.0, p.1@)) == routes_in(m0, first as nat, k as nat),
                settled ==> self.delivery_tag_by_id@ == m0.remove_keys(
                    Set::new(|id: DeliveryNumber| first <= id && (id as int) < first as int + k),
                ),
                !settled ==> self.delivery_tag_by_id == old(self).delivery_tag_by_id,
                self.links == old(self).links,
                self.local_state == old(self).local_state,
                self.sent == old(self).sent,
                self.granted == old(self).granted,
                self.remote_incoming_window == old(self).remote_incoming_window,
            decreases n - k,
        {
            let id: u32 = (first as u64 + k) as u32;
            assert(self.delivery_tag_by_id@.contains_key(id) == m0.contains_key(id));
            let ghost before = out@.map_values(|p: (Handle, Vec<u8>)| (p.0, p.1@));
            match self.delivery_tag_by_id.get(&id) {
                Some(v) => {
                    assert(m0[id] == *v);
                    out.push((v.0, v.1.clone()));
                    assert(out@.map_values(|p: (Handle, Vec<u8>)| (p.0, p.1@)) =~= before.push(
                        (m0[id].0, m0[id].1@),
                    ));
                },
                None => {},
            }
            if settled {
                let _ = self.delivery_tag_by_id.remove(&id);
                assert(self.delivery_tag_by_id@ =~= m0.remove_keys(
                    Set::new(|x: DeliveryNumber| first <= x && (x as int) < first as int + k + 1),
                ));
            }
            k = k + 1;
        }
        proof {
            if settled {
                assert(self.delivery_tag_by_id@ =~= m0.remove_keys(range_ids(first, last)));
            }
        }
        out
    }
}

/// The state after this end sent `end`, with or without an error.
pub open spec fn after_end_sent(s: SessionState, with_error: bool) -> Option<SessionState> {
    match s {
        SessionState::Mapped => Some(
            if with_error {
                SessionState::Discarding
            } else {
                SessionState::EndSent
            },
        ),
        SessionState::EndReceived => Some(SessionState::Unmapped),
        _ => None,
    }
}

/// The state after the peer's `end` came.
pub open spec fn after_end_received(s: SessionState) -> Option<SessionState> {
    match s {
        SessionState::Mapped => Some(SessionState::EndReceived),
        SessionState::EndSent => Some(SessionState::Unmapped),
        SessionState::Discarding => Some(SessionState::Unmapped),
        _ => None,
    }
}

impl Session {
    /// This end sent `end`. With an error the session discards what comes
    /// until the peer's `end`.
    pub fn on_end_sent(&mut self, with_error: bool) -> (r: Result<(), SessionStateError>)
        ensures
            after_end_sent(old(self).local_state, with_error) is Some ==> r is Ok && final(
                self).local_state == after_end_sent(old(self).local_state, with_error)->0,
            after_end_sent(old(self).local_state, with_error) is None ==> r == Err::<
                (),
                SessionStateError,
            >(SessionStateError::IllegalState) && final(self).local_state == old(self).local_state,
            session_same_but_state(*old(self), *final(self)),
    {
        self.local_state = match self.local_state {
            SessionState::Mapped => if with_error {
                SessionState::Discarding
            } else {
                SessionState::EndSent
            },
            SessionState::EndReceived => SessionState::Unmapped,
            _ => return Err(SessionStateError::IllegalState),
        };
        Ok(())
    }

    /// The peer's `end` came.
    pub fn on_incoming_end(&mut self) -> (r: Result<(), SessionStateError>)
        ensures
            after_end_received(old(self).local_state) is Some ==> r is Ok && final(self).local_state
                == after_end_received(old(self).local_state)->0,
            after_end_received(old(self).local_state) is None ==> r == Err::<(), SessionStateError>(
                SessionStateError::IllegalState,
            ) && final(self).local_state == old(self).local_state,
            session_same_but_state(*old(self), *final(self)),
    {
        self.local_state = match self.local_state {
            SessionState::Mapped => SessionState::EndReceived,
            SessionState::EndSent => SessionState::Unmapped,
            SessionState::Discarding => SessionState::Unmapped,
            _ => return Err(SessionStateError::IllegalState),
        };
        Ok(())
    }
}

} // verus!
