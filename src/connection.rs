//! The connection: the header and open/close exchanges, negotiation of
//! frame size, channels and idle timeout, and channel-to-session routing.
use vstd::prelude::*;
use crate::definitions::Symbol;
use crate::error::{AllocSessionError, AmqpError, ConnectionError, ErrorCondition};
use crate::codec::{
    compound_fits, decode_list, decode_primitive, decode_spec, encode_primitive, encode_spec,
    encode_symbol_array, into_utf8, list_decode_spec, list_spec, put_bytes, symbol_array_fits,
    symbol_array_spec, utf8_of, write_seq, DecodeError, ListItem, ListItemModel, Primitive,
    PrimitiveModel, SerError, DESCRIBED_TYPE, LIST0, SMALL_ULONG, U32_MAX_AS_USIZE,
};
use crate::definitions::opt_bytes_view;
use crate::frame::{ProtocolHeader, OPEN_CODE};

verus! {

/// State of a connection endpoint.
#[derive(Clone, Copy, Debug, PartialEq, Eq, Structural)]
pub enum ConnectionState {
    Start,
    HeaderReceived,
    HeaderSent,
    HeaderExchanged,
    OpenPipe,
    OpenClosePipe,
    OpenReceived,
    OpenSent,
    ClosePipe,
    Opened,
    CloseReceived,
    CloseSent,
    Discarding,
    End,
}

/// The largest frame an endpoint accepts.
#[derive(Clone, Copy, Debug, PartialEq, Eq, Structural)]
pub struct MaxFrameSize(pub u32);

impl MaxFrameSize {
    /// No limit beyond the 32-bit size field.
    pub fn default() -> (r: MaxFrameSize)
        ensures
            r.0 == u32::MAX,
    {
        MaxFrameSize(u32::MAX)
    }

    pub fn from(value: u32) -> (r: MaxFrameSize)
        ensures
            r.0 == value,
    {
        MaxFrameSize(value)
    }
}

/// The highest channel number an endpoint uses.
#[derive(Clone, Copy, Debug, PartialEq, Eq, Structural)]
pub struct ChannelMax(pub u16);

impl ChannelMax {
    /// Every channel.
    pub fn default() -> (r: ChannelMax)
        ensures
            r.0 == u16::MAX,
    {
        ChannelMax(u16::MAX)
    }

    pub fn from(value: u16) -> (r: ChannelMax)
        ensures
            r.0 == value,
    {
        ChannelMax(value)
    }
}

/// An `open` performative.
#[derive(Debug)]
pub struct Open {
    pub container_id: String,
    pub hostname: Option<String>,
    pub max_frame_size: MaxFrameSize,
    pub channel_max: ChannelMax,
    pub idle_time_out: Option<u32>,
    pub outgoing_locales: Option<Vec<Symbol>>,
    pub incoming_locales: Option<Vec<Symbol>>,
    pub offered_capabilities: Option<Vec<Symbol>>,
    pub desired_capabilities: Option<Vec<Symbol>>,
    pub properties: Option<Vec<u8>>,
}

/// Why a connection step was refused.
#[derive(Clone, Copy, Debug, PartialEq, Eq, Structural)]
pub enum ConnectionStateError {
    /// The step is not allowed in the connection's state.
    IllegalState,
    /// The peer's header is not AMQP 1.0.0.
    ProtocolHeaderMismatch,
    /// A protocol error that closes the connection.
    Connection(ConnectionError),
}

/// The connection endpoint.
pub struct Connection {
    pub container_id: String,
    pub hostname: Option<String>,
    pub local_state: ConnectionState,
    pub local_max_frame_size: u32,
    pub local_channel_max: u16,
    pub local_idle_time_out: Option<u32>,
    /// After the opens: the smaller of both ends' maximum frame sizes.
    pub max_frame_size: u32,
    /// After the opens: the smaller of both ends' highest channel.
    pub channel_max: u16,
    /// The idle timeout the peer asked for.
    pub remote_idle_time_out: Option<u32>,
    /// Outgoing channels in use by sessions.
    pub channels: Vec<u16>,
    /// Incoming channel of each session whose `begin` came, with its outgoing channel.
    pub incoming_channels: Vec<(u16, u16)>,
}

/// The state after this end wrote its header, if writing it is allowed.
pub open spec fn after_header_sent(s: ConnectionState) -> Option<ConnectionState> {
    match s {
        ConnectionState::Start => Some(ConnectionState::HeaderSent),
        ConnectionState::HeaderReceived => Some(ConnectionState::HeaderExchanged),
        _ => None,
    }
}

/// The state after the peer's header came, if it may come now.
pub open spec fn after_header_received(s: ConnectionState) -> Option<ConnectionState> {
    match s {
        ConnectionState::Start => Some(ConnectionState::HeaderReceived),
        ConnectionState::HeaderSent => Some(ConnectionState::HeaderExchanged),
        ConnectionState::OpenPipe => Some(ConnectionState::OpenSent),
        ConnectionState::OpenClosePipe => Some(ConnectionState::ClosePipe),
        _ => None,
    }
}

/// The state after this end wrote `open`, if it may.
pub open spec fn after_open_sent(s: ConnectionState) -> Option<ConnectionState> {
    match s {
        ConnectionState::HeaderSent => Some(ConnectionState::OpenPipe),
        ConnectionState::HeaderExchanged => Some(ConnectionState::OpenSent),
        ConnectionState::OpenReceived => Some(ConnectionState::Opened),
        _ => None,
    }
}

/// The state after the peer's `open` came, if it may come now.
pub open spec fn after_open_received(s: ConnectionState) -> Option<ConnectionState> {
    match s {
        ConnectionState::HeaderExchanged => Some(ConnectionState::OpenReceived),
        ConnectionState::OpenSent => Some(ConnectionState::Opened),
        ConnectionState::ClosePipe => Some(ConnectionState::CloseSent),
        _ => None,
    }
}

/// The state after this end wrote `close`, if it may.
pub open spec fn after_close_sent(s: ConnectionState) -> Option<ConnectionState> {
    match s {
        ConnectionState::Opened => Some(ConnectionState::CloseSent),
        ConnectionState::CloseReceived => Some(ConnectionState::End),
        ConnectionState::OpenPipe => Some(ConnectionState::OpenClosePipe),
        ConnectionState::OpenSent => Some(ConnectionState::ClosePipe),
        ConnectionState::Discarding => Some(ConnectionState::End),
        _ => None,
    }
}

/// The state after the peer's `close` came, if it may come now.
pub open spec fn after_close_received(s: ConnectionState) -> Option<ConnectionState> {
    match s {
        ConnectionState::Opened => Some(ConnectionState::CloseReceived),
        ConnectionState::CloseSent => Some(ConnectionState::End),
        ConnectionState::Discarding => Some(ConnectionState::End),
        _ => None,
    }
}

pub open spec fn min_u32(a: u32, b: u32) -> u32 {
    if a <= b {
        a
    } else {
        b
    }
}

pub open spec fn min_u16(a: u16, b: u16) -> u16 {
    if a <= b {
        a
    } else {
        b
    }
}

/// Whether a session uses an outgoing channel.
pub open spec fn channel_used(channels: Seq<u16>, c: u16) -> bool {
    exists|i: int| 0 <= i < channels.len() && channels[i] == c
}

fn find_channel(channels: &Vec<u16>, c: u16) -> (r: bool)
    ensures
        r == channel_used(channels@, c),
{
    let mut i: usize = 0;
    while i < channels.len()
        invariant
            0 <= i <= channels@.len(),
            forall|k: int| 0 <= k < i ==> channels@[k] != c,
        decreases channels.len() - i,
    {
        if channels[i] == c {
            return true;
        }
        i += 1;
    }
    false
}

impl Connection {
    /// A connection that has exchanged nothing yet, with this end's limits.
    pub fn new(container_id: String, hostname: Option<String>, local_open: &Open) -> (r: Connection)
        ensures
            r.container_id == container_id,
            r.hostname == hostname,
            r.local_state == ConnectionState::Start,
            r.local_max_frame_size == local_open.max_frame_size.0,
            r.local_channel_max == local_open.channel_max.0,
            r.local_idle_time_out == local_open.idle_time_out,
            r.max_frame_size == local_open.max_frame_size.0,
            r.channel_max == local_open.channel_max.0,
            r.remote_idle_time_out is None,
            r.channels@.len() == 0,
            r.incoming_channels@.len() == 0,
    {
        Connection {
            container_id,
            hostname,
            local_state: ConnectionState::Start,
            local_max_frame_size: local_open.max_frame_size.0,
            local_channel_max: local_open.channel_max.0,
            local_idle_time_out: local_open.idle_time_out,
            max_frame_size: local_open.max_frame_size.0,
            channel_max: local_open.channel_max.0,
            remote_idle_time_out: None,
            channels: Vec::new(),
            incoming_channels: Vec::new(),
        }
    }

    /// This end wrote its protocol header.
    pub fn on_header_sent(&mut self) -> (r: Result<(), ConnectionStateError>)
        ensures
            after_header_sent(old(self).local_state) is Some ==> r is Ok && final(self).local_state
                == after_header_sent(old(self).local_state)->0,
            after_header_sent(old(self).local_state) is None ==> r == Err::<(), ConnectionStateError>(
                ConnectionStateError::IllegalState,
            ) && final(self).local_state == old(self).local_state,
    {
        self.local_state = match self.local_state {
            ConnectionState::Start => ConnectionState::HeaderSent,
            ConnectionState::HeaderReceived => ConnectionState::HeaderExchanged,
            _ => return Err(ConnectionStateError::IllegalState),
        };
        Ok(())
    }

    /// The peer's protocol header came: it must be AMQP 1.0.0.
    pub fn on_header_received(&mut self, header: &ProtocolHeader) -> (r: Result<(), ConnectionStateError>)
        ensures
            *header != ProtocolHeader::amqp_spec() ==> r == Err::<(), ConnectionStateError>(
                ConnectionStateError::ProtocolHeaderMismatch,
            ) && final(self).local_state == old(self).local_state,
            *header == ProtocolHeader::amqp_spec() && after_header_received(old(self).local_state) is Some
                ==> r is Ok && final(self).local_state == after_header_received(
                old(self).local_state,
            )->0,
            *header == ProtocolHeader::amqp_spec() && after_header_received(old(self).local_state) is None
                ==> r == Err::<(), ConnectionStateError>(ConnectionStateError::IllegalState)
                && final(self).local_state == old(self).local_state,
    {
        if *header != ProtocolHeader::amqp() {
            return Err(ConnectionStateError::ProtocolHeaderMismatch);
        }
        self.local_state = match self.local_state {
            ConnectionState::Start => ConnectionState::HeaderReceived,
            ConnectionState::HeaderSent => ConnectionState::HeaderExchanged,
            ConnectionState::OpenPipe => ConnectionState::OpenSent,
            ConnectionState::OpenClosePipe => ConnectionState::ClosePipe,
            _ => return Err(ConnectionStateError::IllegalState),
        };
        Ok(())
    }

    /// This end wrote `open`.
    pub fn on_open_sent(&mut self) -> (r: Result<(), ConnectionStateError>)
        ensures
            after_open_sent(old(self).local_state) is Some ==> r is Ok && final(self).local_state
                == after_open_sent(old(self).local_state)->0,
            after_open_sent(old(self).local_state) is None ==> r == Err::<(), ConnectionStateError>(
                ConnectionStateError::IllegalState,
            ) && final(self).local_state == old(self).local_state,
            final(self).max_frame_size == old(self).max_frame_size,
            final(self).channel_max == old(self).channel_max,
    {
        self.local_state = match self.local_state {
            ConnectionState::HeaderSent => ConnectionState::OpenPipe,
            ConnectionState::HeaderExchanged => ConnectionState::OpenSent,
            ConnectionState::OpenReceived => ConnectionState::Opened,
            _ => return Err(ConnectionStateError::IllegalState),
        };
        Ok(())
    }

    /// The peer's `open` came: the frame size and channel limits become the
    /// smaller of both ends', and the peer's idle timeout is kept.
    pub fn on_incoming_open(&mut self, remote: &Open) -> (r: Result<(), ConnectionStateError>)
        ensures
            after_open_received(old(self).local_state) is Some ==> {
                &&& r is Ok
                &&& final(self).local_state == after_open_received(old(self).local_state)->0
                &&& final(self).max_frame_size == min_u32(
                    old(self).local_max_frame_size,
                    remote.max_frame_size.0,
                )
                &&& final(self).channel_max == min_u16(old(self).local_channel_max, remote.channel_max.0)
                &&& final(self).remote_idle_time_out == remote.idle_time_out
            },
            after_open_received(old(self).local_state) is None ==> r == Err::<
                (),
                ConnectionStateError,
            >(ConnectionStateError::IllegalState) && final(self).local_state == old(self).local_state,
    {
        self.take_open(remote.max_frame_size.0, remote.channel_max.0, remote.idle_time_out)
    }

    /// This end wrote `close`.
    pub fn on_close_sent(&mut self) -> (r: Result<(), ConnectionStateError>)
        ensures
            after_close_sent(old(self).local_state) is Some ==> r is Ok && final(self).local_state
                == after_close_sent(old(self).local_state)->0,
            after_close_sent(old(self).local_state) is None ==> r == Err::<(), ConnectionStateError>(
                ConnectionStateError::IllegalState,
            ) && final(self).local_state == old(self).local_state,
    {
        self.local_state = match self.local_state {
            ConnectionState::Opened => ConnectionState::CloseSent,
            ConnectionState::CloseReceived => ConnectionState::End,
            ConnectionState::OpenPipe => ConnectionState::OpenClosePipe,
            ConnectionState::OpenSent => ConnectionState::ClosePipe,
            ConnectionState::Discarding => ConnectionState::End,
            _ => return Err(ConnectionStateError::IllegalState),
        };
        Ok(())
    }

    /// The peer's `close` came.
    pub fn on_incoming_close(&mut self) -> (r: Result<(), ConnectionStateError>)
        ensures
            after_close_received(old(self).local_state) is Some ==> r is Ok && final(self).local_state
                == after_close_received(old(self).local_state)->0,
            after_close_received(old(self).local_state) is None ==> r == Err::<
                (),
                ConnectionStateError,
            >(ConnectionStateError::IllegalState) && final(self).local_state == old(self).local_state,
    {
        self.local_state = match self.local_state {
            ConnectionState::Opened => ConnectionState::CloseReceived,
            ConnectionState::CloseSent => ConnectionState::End,
            ConnectionState::Discarding => ConnectionState::End,
            _ => return Err(ConnectionStateError::IllegalState),
        };
        Ok(())
    }

    /// Gives a new session the lowest free outgoing channel not above the
    /// negotiated channel maximum.
    pub fn allocate_session(&mut self) -> (r: Result<u16, AllocSessionError>)
        ensures
            old(self).local_state != ConnectionState::Opened ==> r == Err::<u16, AllocSessionError>(
                AllocSessionError::IllegalState,
            ) && final(self).channels == old(self).channels,
            old(self).local_state == ConnectionState::Opened ==> {
                ||| {
                    &&& r is Ok
                    &&& r->Ok_0 <= old(self).channel_max
                    &&& !channel_used(old(self).channels@, r->Ok_0)
                    &&& forall|c: u16| c < r->Ok_0 ==> channel_used(old(self).channels@, c)
                    &&& final(self).channels@ == old(self).channels@.push(r->Ok_0)
                }
                ||| {
                    &&& r == Err::<u16, AllocSessionError>(AllocSessionError::ChannelMaxReached)
                    &&& forall|c: u16| c <= old(self).channel_max ==> channel_used(old(self).channels@, c)
                    &&& final(self).channels == old(self).channels
                }
            },
            final(self).local_state == old(self).local_state,
            final(self).channel_max == old(self).channel_max,
            final(self).incoming_channels == old(self).incoming_channels,
    {
        if self.local_state != ConnectionState::Opened {
            return Err(AllocSessionError::IllegalState);
        }
        let mut c: u16 = 0;
        loop
            invariant
                c <= self.channel_max,
                forall|k: u16| k < c ==> channel_used(self.channels@, k),
                self.channels == old(self).channels,
                self.channel_max == old(self).channel_max,
                self.local_state == old(self).local_state,
                old(self).local_state == ConnectionState::Opened,
                self.incoming_channels == old(self).incoming_channels,
            decreases self.channel_max - c,
        {
            if !find_channel(&self.channels, c) {
                self.channels.push(c);
                return Ok(c);
            }
            if c == self.channel_max {
                assert forall|k: u16| k <= old(self).channel_max implies channel_used(
                    old(self).channels@,
                    k,
                ) by {
                    if k < c {
                    }
                }
                return Err(AllocSessionError::ChannelMaxReached);
            }
            c = c + 1;
        }
    }

    /// The peer's `begin` came on an incoming channel for the session on
    /// the outgoing channel `outgoing` (the one it answers, or the one
    /// allocated to answer it). The incoming channel then routes to that
    /// session.
    pub fn on_incoming_begin(&mut self, incoming: u16, outgoing: u16) -> (r: Result<(), ConnectionStateError>)
        ensures
            (old(self).local_state == ConnectionState::Opened && channel_used(old(self).channels@, outgoing))
                ==> r is Ok && final(self).incoming_channels@ == old(self).incoming_channels@.push(
                (incoming, outgoing),
            ),
            !(old(self).local_state == ConnectionState::Opened && channel_used(old(self).channels@, outgoing))
                ==> r is Err && final(self).incoming_channels == old(self).incoming_channels,
            final(self).local_state == old(self).local_state,
            final(self).channels == old(self).channels,
    {
        if self.local_state != ConnectionState::Opened {
            return Err(ConnectionStateError::IllegalState);
        }
        if !find_channel(&self.channels, outgoing) {
            return Err(ConnectionStateError::Connection(ConnectionError::FramingError));
        }
        self.incoming_channels.push((incoming, outgoing));
        Ok(())
    }

    /// Routes a frame that is not `begin`: its incoming channel must belong
    /// to a session, else the connection fails with a framing error.
    pub fn route_incoming(&self, incoming: u16) -> (r: Result<u16, ConnectionStateError>)
        ensures
            r is Ok ==> exists|i: int|
                0 <= i < self.incoming_channels@.len() && self.incoming_channels@[i] == (
                incoming,
                r->Ok_0,
            ),
            r is Err ==> r == Err::<u16, ConnectionStateError>(
                ConnectionStateError::Connection(ConnectionError::FramingError),
            ) && forall|i: int|
                0 <= i < self.incoming_channels@.len() ==> self.incoming_channels@[i].0 != incoming,
    {
        let mut i: usize = 0;
        while i < self.incoming_channels.len()
            invariant
                0 <= i <= self.incoming_channels@.len(),
                forall|k: int| 0 <= k < i ==> self.incoming_channels@[k].0 != incoming,
            decreases self.incoming_channels.len() - i,
        {
            if self.incoming_channels[i].0 == incoming {
                return Ok(self.incoming_channels[i].1);
            }
            i += 1;
        }
        Err(ConnectionStateError::Connection(ConnectionError::FramingError))
    }

    /// Whether a frame of this many bytes may be sent to the peer.
    pub fn frame_fits(&self, frame_len: usize) -> (r: bool)
        ensures
            r == (frame_len as int <= self.max_frame_size as int),
    {
        frame_len as u64 <= self.max_frame_size as u64
    }

    /// How long this end may stay silent: half the peer's idle timeout, if
    /// it asked for one.
    pub fn heartbeat_interval(&self) -> (r: Option<u32>)
        ensures
            self.remote_idle_time_out is None ==> r is None,
            self.remote_idle_time_out is Some ==> r == Some(self.remote_idle_time_out->0 / 2),
    {
        match self.remote_idle_time_out {
            Some(t) => Some(t / 2),
            None => None,
        }
    }

    /// The error the connection closes with when the peer has been silent
    /// for longer than this end's idle timeout allows.
    pub fn idle_timeout_error(&self, silent_for: u32) -> (r: Option<ErrorCondition>)
        ensures
            (self.local_idle_time_out is Some && silent_for > self.local_idle_time_out->0) ==> r
                == Some(ErrorCondition::AmqpError(AmqpError::ResourceLimitExceeded)),
            !(self.local_idle_time_out is Some && silent_for > self.local_idle_time_out->0) ==> r
                is None,
    {
        if self.idle_timeout_elapsed(silent_for) {
            Some(ErrorCondition::AmqpError(AmqpError::ResourceLimitExceeded))
        } else {
            None
        }
    }

    /// Whether the peer has been silent for longer than this end's idle
    /// timeout allows.
    pub fn idle_timeout_elapsed(&self, silent_for: u32) -> (r: bool)
        ensures
            r == (self.local_idle_time_out is Some && silent_for > self.local_idle_time_out->0),
    {
        match self.local_idle_time_out {
            Some(t) => silent_for > t,
            None => false,
        }
    }
}

/// The fields of the peer's `open` that the connection uses. Strings are
/// held as their UTF-8 bytes.
#[derive(Debug)]
pub struct PeerOpen {
    pub container_id: Vec<u8>,
    pub hostname: Option<Vec<u8>>,
    pub max_frame_size: u32,
    pub channel_max: u16,
    pub idle_time_out: Option<u32>,
}

/// The mathematical value of the peer's `open` fields.
pub struct PeerOpenModel {
    pub container_id: Seq<u8>,
    pub hostname: Option<Seq<u8>>,
    pub max_frame_size: u32,
    pub channel_max: u16,
    pub idle_time_out: Option<u32>,
}

impl View for PeerOpen {
    type V = PeerOpenModel;

    open spec fn view(&self) -> PeerOpenModel {
        PeerOpenModel {
            container_id: self.container_id@,
            hostname: match self.hostname {
                Some(h) => Some(h@),
                None => None,
            },
            max_frame_size: self.max_frame_size,
            channel_max: self.channel_max,
            idle_time_out: self.idle_time_out,
        }
    }
}

/// Field `i` of a composite: `None` when the list ends before it or it is null.
pub open spec fn field_at(items: Seq<ListItemModel>, i: int) -> Option<ListItemModel> {
    if i < items.len() {
        match items[i] {
            ListItemModel::Primitive(PrimitiveModel::Null) => None,
            x => Some(x),
        }
    } else {
        None
    }
}

/// The `open` fields read from its list: the container id is mandatory; an
/// absent or null field takes its default (no hostname, the largest frame
/// size and channel, no idle timeout); a field of the wrong type is invalid.
pub open spec fn peer_open_spec(items: Seq<ListItemModel>) -> Result<PeerOpenModel, DecodeError> {
    let c = field_at(items, 0);
    let h = field_at(items, 1);
    let f = field_at(items, 2);
    let m = field_at(items, 3);
    let t = field_at(items, 4);
    if !(c matches Some(ListItemModel::Primitive(PrimitiveModel::String(_)))) {
        Err(DecodeError::InvalidValue)
    } else if !(h is None || h matches Some(ListItemModel::Primitive(PrimitiveModel::String(_)))) {
        Err(DecodeError::InvalidValue)
    } else if !(f is None || f matches Some(ListItemModel::Primitive(PrimitiveModel::Uint(_)))) {
        Err(DecodeError::InvalidValue)
    } else if !(m is None || m matches Some(ListItemModel::Primitive(PrimitiveModel::Ushort(_)))) {
        Err(DecodeError::InvalidValue)
    } else if !(t is None || t matches Some(ListItemModel::Primitive(PrimitiveModel::Uint(_)))) {
        Err(DecodeError::InvalidValue)
    } else {
        Ok(
            PeerOpenModel {
                container_id: c->0->Primitive_0->String_0,
                hostname: match h {
                    Some(ListItemModel::Primitive(PrimitiveModel::String(b))) => Some(b),
                    _ => None,
                },
                max_frame_size: match f {
                    Some(ListItemModel::Primitive(PrimitiveModel::Uint(v))) => v,
                    _ => u32::MAX,
                },
                channel_max: match m {
                    Some(ListItemModel::Primitive(PrimitiveModel::Ushort(v))) => v,
                    _ => u16::MAX,
                },
                idle_time_out: match t {
                    Some(ListItemModel::Primitive(PrimitiveModel::Uint(v))) => Some(v),
                    _ => None,
                },
            },
        )
    }
}

/// What the bytes of an `open` performative hold: the described-type
/// constructor, the `open` code as a ulong, then the list of fields.
pub open spec fn open_decode_spec(s: Seq<u8>) -> Result<PeerOpenModel, DecodeError> {
    if s.len() == 0 {
        Err(DecodeError::NeedMore)
    } else if s[0] != DESCRIBED_TYPE {
        Err(DecodeError::InvalidFormatCode(s[0]))
    } else {
        match decode_spec(s.skip(1)) {
            Err(e) => Err(e),
            Ok((PrimitiveModel::Ulong(c), n)) => if c != OPEN_CODE {
                Err(DecodeError::UnknownDescriptor)
            } else {
                match list_decode_spec(s.skip((1 + n) as int)) {
                    Err(e) => Err(e),
                    Ok((items, _)) => peer_open_spec(items),
                }
            },
            Ok(_) => Err(DecodeError::UnknownDescriptor),
        }
    }
}

fn field(items: &Vec<ListItem>, i: usize) -> (r: Option<&ListItem>)
    ensures
        match field_at(items@.map_values(|x: ListItem| x@), i as int) {
            None => r is None,
            Some(m) => r is Some && r->0@ == m,
        },
{
    if i < items.len() {
        match &items[i] {
            ListItem::Primitive(Primitive::Null) => None,
            x => Some(x),
        }
    } else {
        None
    }
}

/// Reads the fields of the peer's `open` from the performative's bytes.
pub fn decode_open(s: &Vec<u8>) -> (r: Result<PeerOpen, DecodeError>)
    ensures
        match open_decode_spec(s@) {
            Ok(m) => r is Ok && r->Ok_0@ == m,
            Err(e) => r == Err::<PeerOpen, DecodeError>(e),
        },
{
    if s.len() == 0 {
        return Err(DecodeError::NeedMore);
    }
    if s[0] != DESCRIBED_TYPE {
        return Err(DecodeError::InvalidFormatCode(s[0]));
    }
    let n = match decode_primitive(s, 1) {
        Err(e) => return Err(e),
        Ok((Primitive::Ulong(c), n)) => {
            if c != OPEN_CODE {
                return Err(DecodeError::UnknownDescriptor);
            }
            n
        },
        Ok(_) => return Err(DecodeError::UnknownDescriptor),
    };
    let items = match decode_list(s, 1 + n) {
        Err(e) => return Err(e),
        Ok((items, _)) => items,
    };
    let ghost im = items@.map_values(|x: ListItem| x@);
    let container_id = match field(&items, 0) {
        Some(ListItem::Primitive(Primitive::String(b))) => b.clone(),
        _ => return Err(DecodeError::InvalidValue),
    };
    let hostname = match field(&items, 1) {
        None => None,
        Some(ListItem::Primitive(Primitive::String(b))) => Some(b.clone()),
        _ => return Err(DecodeError::InvalidValue),
    };
    let max_frame_size = match field(&items, 2) {
        None => u32::MAX,
        Some(ListItem::Primitive(Primitive::Uint(v))) => *v,
        _ => return Err(DecodeError::InvalidValue),
    };
    let channel_max = match field(&items, 3) {
        None => u16::MAX,
        Some(ListItem::Primitive(Primitive::Ushort(v))) => *v,
        _ => return Err(DecodeError::InvalidValue),
    };
    let idle_time_out = match field(&items, 4) {
        None => None,
        Some(ListItem::Primitive(Primitive::Uint(v))) => Some(*v),
        _ => return Err(DecodeError::InvalidValue),
    };
    let r = PeerOpen { container_id, hostname, max_frame_size, channel_max, idle_time_out };
    assert(r@ == peer_open_spec(im)->Ok_0);
    Ok(r)
}

impl Connection {
    /// The peer's `open` came, read from the wire: as `on_incoming_open`.
    pub fn on_incoming_peer_open(&mut self, remote: &PeerOpen) -> (r: Result<(), ConnectionStateError>)
        ensures
            after_open_received(old(self).local_state) is Some ==> {
                &&& r is Ok
                &&& final(self).local_state == after_open_received(old(self).local_state)->0
                &&& final(self).max_frame_size == min_u32(
                    old(self).local_max_frame_size,
                    remote.max_frame_size,
                )
                &&& final(self).channel_max == min_u16(old(self).local_channel_max, remote.channel_max)
                &&& final(self).remote_idle_time_out == remote.idle_time_out
            },
            after_open_received(old(self).local_state) is None ==> r == Err::<
                (),
                ConnectionStateError,
            >(ConnectionStateError::IllegalState) && final(self).local_state == old(self).local_state,
    {
        self.take_open(remote.max_frame_size, remote.channel_max, remote.idle_time_out)
    }

    fn take_open(&mut self, max_frame_size: u32, channel_max: u16, idle_time_out: Option<u32>) -> (r:
        Result<(), ConnectionStateError>)
        ensures
            after_open_received(old(self).local_state) is Some ==> {
                &&& r is Ok
                &&& final(self).local_state == after_open_received(old(self).local_state)->0
                &&& final(self).max_frame_size == min_u32(old(self).local_max_frame_size, max_frame_size)
                &&& final(self).channel_max == min_u16(old(self).local_channel_max, channel_max)
                &&& final(self).remote_idle_time_out == idle_time_out
            },
            after_open_received(old(self).local_state) is None ==> r == Err::<
                (),
                ConnectionStateError,
            >(ConnectionStateError::IllegalState) && final(self).local_state == old(self).local_state,
    {
        self.local_state = match self.local_state {
            ConnectionState::HeaderExchanged => ConnectionState::OpenReceived,
            ConnectionState::OpenSent => ConnectionState::Opened,
            ConnectionState::ClosePipe => ConnectionState::CloseSent,
            _ => return Err(ConnectionStateError::IllegalState),
        };
        self.max_frame_size = if self.local_max_frame_size <= max_frame_size {
            self.local_max_frame_size
        } else {
            max_frame_size
        };
        self.channel_max = if self.local_channel_max <= channel_max {
            self.local_channel_max
        } else {
            channel_max
        };
        self.remote_idle_time_out = idle_time_out;
        Ok(())
    }
}

/// The bytes of a performative: the described-type constructor, its code
/// as a small ulong, then the list of its fields.
pub open spec fn performative_bytes(code: u8, count: nat, fields: Seq<u8>) -> Seq<u8> {
    seq![DESCRIBED_TYPE, SMALL_ULONG, code] + list_spec(count, fields)
}

/// The UTF-8 bytes of each symbol of a list.
pub open spec fn symbols_utf8(v: Seq<Symbol>) -> Seq<Seq<u8>> {
    v.map_values(|s: Symbol| utf8_of(s.0@))
}

/// The encoding of an optional list of symbols as an array field.
pub open spec fn symbols_field(o: Option<Vec<Symbol>>) -> Option<Seq<u8>> {
    match o {
        Some(v) => Some(symbol_array_spec(symbols_utf8(v@))),
        None => None,
    }
}

/// The ten fields of an `open`, each encoded, or `None` for null.
pub open spec fn open_fields(o: Open) -> Seq<Option<Seq<u8>>> {
    seq![
        Some(encode_spec(PrimitiveModel::String(utf8_of(o.container_id@)))),
        match o.hostname {
            Some(h) => Some(encode_spec(PrimitiveModel::String(utf8_of(h@)))),
            None => None,
        },
        Some(encode_spec(PrimitiveModel::Uint(o.max_frame_size.0))),
        Some(encode_spec(PrimitiveModel::Ushort(o.channel_max.0))),
        match o.idle_time_out {
            Some(t) => Some(encode_spec(PrimitiveModel::Uint(t))),
            None => None,
        },
        symbols_field(o.outgoing_locales),
        symbols_field(o.incoming_locales),
        symbols_field(o.offered_capabilities),
        symbols_field(o.desired_capabilities),
        match o.properties {
            Some(p) => Some(p@),
            None => None,
        },
    ]
}

/// How many fields are written: up to the last one that is not null.
pub open spec fn fields_written(f: Seq<Option<Seq<u8>>>) -> nat
    decreases f.len(),
{
    if f.len() == 0 {
        0
    } else if f.last() is Some {
        f.len()
    } else {
        fields_written(f.drop_last())
    }
}

/// The encodings of fields one after another, null written as `0x40`.
pub open spec fn fields_concat(f: Seq<Option<Seq<u8>>>) -> Seq<u8>
    decreases f.len(),
{
    if f.len() == 0 {
        Seq::empty()
    } else {
        fields_concat(f.drop_last()) + match f.last() {
            Some(b) => b,
            None => encode_spec(PrimitiveModel::Null),
        }
    }
}

/// Every symbol list of an `open` fits an array.
pub open spec fn open_arrays_fit(o: Open) -> bool {
    &&& (o.outgoing_locales matches Some(v) ==> symbol_array_fits(symbols_utf8(v@)))
    &&& (o.incoming_locales matches Some(v) ==> symbol_array_fits(symbols_utf8(v@)))
    &&& (o.offered_capabilities matches Some(v) ==> symbol_array_fits(symbols_utf8(v@)))
    &&& (o.desired_capabilities matches Some(v) ==> symbol_array_fits(symbols_utf8(v@)))
}

/// An `open` that has an encoding: its strings, arrays and field list fit
/// their 32-bit sizes.
pub open spec fn open_encodable(o: Open) -> bool {
    let f = open_fields(o);
    &&& utf8_of(o.container_id@).len() <= U32_MAX_AS_USIZE
    &&& (o.hostname matches Some(h) ==> utf8_of(h@).len() <= U32_MAX_AS_USIZE)
    &&& open_arrays_fit(o)
    &&& compound_fits(fields_written(f), fields_concat(f.take(fields_written(f) as int)))
}

/// The bytes of an `open`: all ten fields in order, the trailing null ones
/// left out.
pub open spec fn open_bytes(o: Open) -> Seq<u8> {
    let f = open_fields(o);
    performative_bytes(0x10, fields_written(f), fields_concat(f.take(fields_written(f) as int)))
}

fn string_field(s: &String) -> (r: Result<Vec<u8>, SerError>)
    ensures
        utf8_of(s@).len() <= U32_MAX_AS_USIZE ==> r is Ok && r->Ok_0@ == encode_spec(
            PrimitiveModel::String(utf8_of(s@)),
        ),
        utf8_of(s@).len() > U32_MAX_AS_USIZE ==> r is Err,
{
    let b = into_utf8(s.clone());
    if b.len() > U32_MAX_AS_USIZE {
        return Err(SerError::TooLong);
    }
    let mut out: Vec<u8> = Vec::new();
    encode_primitive(&mut out, &Primitive::String(b));
    assert(out@ =~= encode_spec(PrimitiveModel::String(utf8_of(s@))));
    Ok(out)
}

fn symbols_array_field(o: &Option<Vec<Symbol>>) -> (r: Result<Option<Vec<u8>>, SerError>)
    ensures
        (o matches Some(v) ==> symbol_array_fits(symbols_utf8(v@))) ==> r is Ok && opt_bytes_view(
            r->Ok_0,
        ) == symbols_field(*o),
        !(o matches Some(v) ==> symbol_array_fits(symbols_utf8(v@))) ==> r is Err,
{
    match o {
        None => Ok(None),
        Some(v) => {
            let mut items: Vec<Vec<u8>> = Vec::new();
            let mut i: usize = 0;
            while i < v.len()
                invariant
                    0 <= i <= v@.len(),
                    items@.map_values(|b: Vec<u8>| b@) == symbols_utf8(v@.take(i as int)),
                decreases v.len() - i,
            {
                let ghost before = items@;
                items.push(into_utf8(v[i].0.clone()));
                assert(items@.map_values(|b: Vec<u8>| b@) =~= before.map_values(|b: Vec<u8>| b@).push(
                    utf8_of(v@[i as int].0@),
                ));
                assert(v@.take(i + 1) =~= v@.take(i as int).push(v@[i as int]));
                assert(symbols_utf8(v@.take(i + 1)) =~= symbols_utf8(v@.take(i as int)).push(
                    utf8_of(v@[i as int].0@),
                ));
                i += 1;
            }
            assert(v@.take(i as int) =~= v@);
            let mut out: Vec<u8> = Vec::new();
            match encode_symbol_array(&mut out, &items) {
                Ok(()) => {},
                Err(e) => return Err(e),
            }
            assert(out@ =~= symbol_array_spec(symbols_utf8(v@)));
            Ok(Some(out))
        },
    }
}

impl Open {
    /// Encodes this `open` as a performative: its fields in order, the
    /// trailing null ones left out. Fails when a string, array or the field
    /// list does not fit its 32-bit size.
    pub fn encode_performative(&self) -> (r: Result<Vec<u8>, SerError>)
        ensures
            open_encodable(*self) ==> r is Ok && r->Ok_0@ == open_bytes(*self),
            !open_encodable(*self) ==> r == Err::<Vec<u8>, SerError>(SerError::TooLong),
    {
        let ghost f = open_fields(*self);
        let mut fields: Vec<Option<Vec<u8>>> = Vec::new();
        let cid = match string_field(&self.container_id) {
            Ok(b) => b,
            Err(_) => return Err(SerError::TooLong),
        };
        fields.push(Some(cid));
        match &self.hostname {
            Some(h) => match string_field(h) {
                Ok(b) => fields.push(Some(b)),
                Err(_) => return Err(SerError::TooLong),
            },
            None => fields.push(None),
        }
        let mut mfs: Vec<u8> = Vec::new();
        encode_primitive(&mut mfs, &Primitive::Uint(self.max_frame_size.0));
        assert(mfs@ =~= encode_spec(PrimitiveModel::Uint(self.max_frame_size.0)));
        fields.push(Some(mfs));
        let mut cm: Vec<u8> = Vec::new();
        encode_primitive(&mut cm, &Primitive::Ushort(self.channel_max.0));
        assert(cm@ =~= encode_spec(PrimitiveModel::Ushort(self.channel_max.0)));
        fields.push(Some(cm));
        match self.idle_time_out {
            Some(t) => {
                let mut tb: Vec<u8> = Vec::new();
                encode_primitive(&mut tb, &Primitive::Uint(t));
                assert(tb@ =~= encode_spec(PrimitiveModel::Uint(t)));
                fields.push(Some(tb));
            },
            None => fields.push(None),
        }
        match symbols_array_field(&self.outgoing_locales) {
            Ok(x) => fields.push(x),
            Err(_) => return Err(SerError::TooLong),
        }
        match symbols_array_field(&self.incoming_locales) {
            Ok(x) => fields.push(x),
            Err(_) => return Err(SerError::TooLong),
        }
        match symbols_array_field(&self.offered_capabilities) {
            Ok(x) => fields.push(x),
            Err(_) => return Err(SerError::TooLong),
        }
        match symbols_array_field(&self.desired_capabilities) {
            Ok(x) => fields.push(x),
            Err(_) => return Err(SerError::TooLong),
        }
        match &self.properties {
            Some(p) => fields.push(Some(p.clone())),
            None => fields.push(None),
        }
        assert(fields@.map_values(|o: Option<Vec<u8>>| opt_bytes_view(o)) =~= f);
        // the number of fields written: up to the last one that is not null
        let mut count: usize = fields.len();
        assert(f.take(10) =~= f);
        while count > 0 && fields[count - 1].is_none()
            invariant
                count <= 10,
                fields@.len() == 10,
                fields@.map_values(|o: Option<Vec<u8>>| opt_bytes_view(o)) == f,
                fields_written(f) == fields_written(f.take(count as int)),
            decreases count,
        {
            assert(f.take(count as int).drop_last() =~= f.take(count - 1));
            count -= 1;
        }
        proof {
            if count > 0 {
                assert(f.take(count as int).last() == f[count - 1]);
            } else {
                assert(f.take(0) =~= Seq::<Option<Seq<u8>>>::empty());
            }
            assert(f.take(10) =~= f);
        }
        let mut body: Vec<u8> = Vec::new();
        let mut i: usize = 0;
        while i < count
            invariant
                count <= 10,
                fields@.len() == 10,
                fields@.map_values(|o: Option<Vec<u8>>| opt_bytes_view(o)) == f,
                0 <= i <= count,
                body@ == fields_concat(f.take(i as int)),
            decreases count - i,
        {
            assert(f.take(i + 1).drop_last() =~= f.take(i as int));
            assert(f[i as int] == opt_bytes_view(fields@[i as int]));
            match &fields[i] {
                Some(b) => put_bytes(&mut body, b.as_slice()),
                None => encode_primitive(&mut body, &Primitive::Null),
            }
            assert(body@ =~= fields_concat(f.take(i + 1)));
            i += 1;
        }
        let mut out: Vec<u8> = Vec::new();
        out.push(DESCRIBED_TYPE);
        out.push(SMALL_ULONG);
        out.push(0x10);
        match write_seq(&mut out, count, &body) {
            Ok(()) => {},
            Err(e) => return Err(e),
        }
        assert(out@ =~= performative_bytes(0x10, count as nat, body@));
        Ok(out)
    }
}

/// The bytes of a `close` without an error: an empty list of fields.
pub fn encode_close() -> (r: Vec<u8>)
    ensures
        r@ == seq![DESCRIBED_TYPE, SMALL_ULONG, 0x18u8, LIST0],
{
    let mut out: Vec<u8> = Vec::new();
    out.push(DESCRIBED_TYPE);
    out.push(SMALL_ULONG);
    out.push(0x18);
    out.push(LIST0);
    assert(out@ =~= seq![DESCRIBED_TYPE, SMALL_ULONG, 0x18u8, LIST0]);
    out
}

} // verus!
