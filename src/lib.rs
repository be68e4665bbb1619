//! An AMQP 1.0 protocol core: the type codec, frame codec, and the
//! connection, session and link state machines, with their contracts.
pub mod definitions;
pub mod error;
pub mod util;
pub mod codec;
pub mod frame;
pub mod message;
pub mod link;
pub mod acceptor;
pub mod session;
pub mod connection;
pub mod transaction;
