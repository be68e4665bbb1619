//! Small shared types: a value fixed at creation, type-state markers, and
//! the encoding choices of the codec.
use vstd::prelude::*;

verus! {

/// A value that does not change after it is made.
#[derive(Debug)]
pub struct Constant<T> {
    value: T,
}

impl<T> Constant<T> {
    pub closed spec fn view(&self) -> T {
        self.value
    }

    pub fn new(value: T) -> (r: Constant<T>)
        ensures
            r.view() == value,
    {
        Constant { value }
    }

    pub fn value(&self) -> (r: &T)
        ensures
            *r == self.view(),
    {
        &self.value
    }
}

/// Marks a builder whose required parts are not set yet.
#[derive(Debug)]
pub struct Uninitialized {}

/// Marks a builder whose required parts are set.
#[derive(Debug)]
pub struct Initialized {}

/// Where a value stands in an array: arrays write one constructor for all
/// their elements.
#[derive(Clone, Copy, Debug, PartialEq, Eq, Structural)]
pub enum IsArrayElement {
    False,
    FirstElement,
    OtherElement,
}

/// How an enum is being written.
#[derive(Clone, Copy, Debug, PartialEq, Eq, Structural)]
pub enum EnumType {
    Unspecified,
    Array,
    Descriptor,
    Value,
}

impl EnumType {
    pub fn default() -> (r: EnumType)
        ensures
            r == EnumType::Unspecified,
    {
        EnumType::Unspecified
    }
}

/// How a described composite is written: as a list, a map, or a basic value.
#[derive(Clone, Copy, Debug, PartialEq, Eq, Structural)]
pub enum StructEncoding {
    Unspecified,
    DescribedList,
    DescribedMap,
    DescribedBasic,
}

impl StructEncoding {
    pub fn default() -> (r: StructEncoding)
        ensures
            r == StructEncoding::Unspecified,
    {
        StructEncoding::Unspecified
    }
}

/// Conversion from a value that can be encoded.
pub trait TryFromSerializable<T>: Sized {
    type Error;

    fn try_from(value: T) -> Result<Self, Self::Error>;
}

/// Something that accepts incoming connections, sessions or links.
pub trait Listener {}

/// The options with which incoming connections are opened.
#[derive(Debug)]
pub struct ConnectionAcceptor {
    pub container_id: String,
    pub max_frame_size: u32,
    pub channel_max: u16,
    pub idle_time_out: Option<u32>,
}

/// A connection acceptor, bound to a byte stream or not (`()`).
#[derive(Debug)]
pub struct ConnectionListener<Io> {
    pub io: Io,
    pub acceptor: ConnectionAcceptor,
}

impl<Io> Listener for ConnectionListener<Io> {}

impl ConnectionListener<()> {
    pub fn from(acceptor: ConnectionAcceptor) -> (r: ConnectionListener<()>)
        ensures
            r.acceptor == acceptor,
    {
        ConnectionListener { io: (), acceptor }
    }

    /// Binds the listener to a stream.
    pub fn bind<Io>(self, io: Io) -> (r: ConnectionListener<Io>)
        ensures
            r.io == io,
            r.acceptor == self.acceptor,
    {
        ConnectionListener { io, acceptor: self.acceptor }
    }
}

impl<Io> ConnectionListener<Io> {
    /// Unbinds the listener from its stream, and hands the stream back.
    pub fn unbind(self) -> (r: (ConnectionListener<()>, Io))
        ensures
            r.0.acceptor == self.acceptor,
            r.1 == self.io,
    {
        let io = self.io;
        let listener = ConnectionListener { io: (), acceptor: self.acceptor };
        (listener, io)
    }
}

} // verus!
