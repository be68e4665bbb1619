//! Error conditions carried on the wire, and the error shapes of the
//! connection, session and link operations.
use vstd::prelude::*;
use crate::definitions::Symbol;

verus! {

/// Shared error conditions.
#[derive(Clone, Copy, Debug, PartialEq, Eq, Structural)]
pub enum AmqpError {
    InternalError,
    NotFound,
    UnauthorizedAccess,
    DecodeError,
    ResourceLimitExceeded,
    NotAllowed,
    InvalidField,
    NotImplemented,
    ResourceLocked,
    PreconditionFailed,
    ResourceDeleted,
    IllegalState,
    FrameSizeTooSmall,
}

/// Conditions that close a connection.
#[derive(Clone, Copy, Debug, PartialEq, Eq, Structural)]
pub enum ConnectionError {
    ConnectionForced,
    FramingError,
    Redirect,
}

/// Conditions that end a session.
#[derive(Clone, Copy, Debug, PartialEq, Eq, Structural)]
pub enum SessionError {
    WindowViolation,
    ErrantLink,
    HandleInUse,
    UnattachedHandle,
}

/// Conditions that detach a link.
#[derive(Clone, Copy, Debug, PartialEq, Eq, Structural)]
pub enum LinkError {
    DetachForced,
    TransferLimitExceeded,
    MessageSizeExceeded,
    Redirect,
    Stolen,
}

/// An error condition: one of the standard ones, or a custom symbol.
#[derive(Clone, Debug)]
pub enum ErrorCondition {
    AmqpError(AmqpError),
    ConnectionError(ConnectionError),
    SessionError(SessionError),
    LinkError(LinkError),
    Custom(Symbol),
}

impl ErrorCondition {
    pub fn amqp_error(err: AmqpError) -> (r: ErrorCondition)
        ensures
            r == ErrorCondition::AmqpError(err),
    {
        ErrorCondition::AmqpError(err)
    }

    pub fn connection_error(err: ConnectionError) -> (r: ErrorCondition)
        ensures
            r == ErrorCondition::ConnectionError(err),
    {
        ErrorCondition::ConnectionError(err)
    }

    pub fn session_error(err: SessionError) -> (r: ErrorCondition)
        ensures
            r == ErrorCondition::SessionError(err),
    {
        ErrorCondition::SessionError(err)
    }

    pub fn link_error(err: LinkError) -> (r: ErrorCondition)
        ensures
            r == ErrorCondition::LinkError(err),
    {
        ErrorCondition::LinkError(err)
    }

    pub fn custom(err: Symbol) -> (r: ErrorCondition)
        ensures
            r is Custom,
            r->Custom_0.0@ == err.0@,
    {
        ErrorCondition::Custom(err)
    }
}

/// The symbol of a standard condition on the wire.
pub open spec fn amqp_error_symbol(e: AmqpError) -> Seq<char> {
    match e {
        AmqpError::InternalError => "amqp:internal-error"@,
        AmqpError::NotFound => "amqp:not-found"@,
        AmqpError::UnauthorizedAccess => "amqp:unauthorized-access"@,
        AmqpError::DecodeError => "amqp:decode-error"@,
        AmqpError::ResourceLimitExceeded => "amqp:resource-limit-exceeded"@,
        AmqpError::NotAllowed => "amqp:not-allowed"@,
        AmqpError::InvalidField => "amqp:invalid-field"@,
        AmqpError::NotImplemented => "amqp:not-implemented"@,
        AmqpError::ResourceLocked => "amqp:resource-locked"@,
        AmqpError::PreconditionFailed => "amqp:precondition-failed"@,
        AmqpError::ResourceDeleted => "amqp:resource-deleted"@,
        AmqpError::IllegalState => "amqp:illegal-state"@,
        AmqpError::FrameSizeTooSmall => "amqp:frame-size-too-small"@,
    }
}

pub open spec fn connection_error_symbol(e: ConnectionError) -> Seq<char> {
    match e {
        ConnectionError::ConnectionForced => "amqp:connection:forced"@,
        ConnectionError::FramingError => "amqp:connection:framing-error"@,
        ConnectionError::Redirect => "amqp:connection:redirect"@,
    }
}

pub open spec fn session_error_symbol(e: SessionError) -> Seq<char> {
    match e {
        SessionError::WindowViolation => "amqp:session:window-violation"@,
        SessionError::ErrantLink => "amqp:session:errant-link"@,
        SessionError::HandleInUse => "amqp:session:handle-in-use"@,
        SessionError::UnattachedHandle => "amqp:session:unattached-handle"@,
    }
}

pub open spec fn link_error_symbol(e: LinkError) -> Seq<char> {
    match e {
        LinkError::DetachForced => "amqp:link:detach-forced"@,
        LinkError::TransferLimitExceeded => "amqp:link:transfer-limit-exceeded"@,
        LinkError::MessageSizeExceeded => "amqp:link:message-size-exceeded"@,
        LinkError::Redirect => "amqp:link:redirect"@,
        LinkError::Stolen => "amqp:link:stolen"@,
    }
}

/// The symbol that stands for a condition on the wire.
pub open spec fn condition_symbol(c: ErrorCondition) -> Seq<char> {
    match c {
        ErrorCondition::AmqpError(e) => amqp_error_symbol(e),
        ErrorCondition::ConnectionError(e) => connection_error_symbol(e),
        ErrorCondition::SessionError(e) => session_error_symbol(e),
        ErrorCondition::LinkError(e) => link_error_symbol(e),
        ErrorCondition::Custom(s) => s.0@,
    }
}

/// Whether a symbol names one of the standard conditions.
pub open spec fn is_standard_symbol(s: Seq<char>) -> bool {
    ||| exists|e: AmqpError| amqp_error_symbol(e) == s
    ||| exists|e: ConnectionError| connection_error_symbol(e) == s
    ||| exists|e: SessionError| session_error_symbol(e) == s
    ||| exists|e: LinkError| link_error_symbol(e) == s
}

fn lit(s: &str) -> (r: String)
    ensures
        r@ == s@,
{
    s.to_string()
}

fn amqp_error_to_symbol(e: AmqpError) -> (r: String)
    ensures
        r@ == amqp_error_symbol(e),
{
    match e {
        AmqpError::InternalError => lit("amqp:internal-error"),
        AmqpError::NotFound => lit("amqp:not-found"),
        AmqpError::UnauthorizedAccess => lit("amqp:unauthorized-access"),
        AmqpError::DecodeError => lit("amqp:decode-error"),
        AmqpError::ResourceLimitExceeded => lit("amqp:resource-limit-exceeded"),
        AmqpError::NotAllowed => lit("amqp:not-allowed"),
        AmqpError::InvalidField => lit("amqp:invalid-field"),
        AmqpError::NotImplemented => lit("amqp:not-implemented"),
        AmqpError::ResourceLocked => lit("amqp:resource-locked"),
        AmqpError::PreconditionFailed => lit("amqp:precondition-failed"),
        AmqpError::ResourceDeleted => lit("amqp:resource-deleted"),
        AmqpError::IllegalState => lit("amqp:illegal-state"),
        AmqpError::FrameSizeTooSmall => lit("amqp:frame-size-too-small"),
    }
}

fn connection_error_to_symbol(e: ConnectionError) -> (r: String)
    ensures
        r@ == connection_error_symbol(e),
{
    match e {
        ConnectionError::ConnectionForced => lit("amqp:connection:forced"),
        ConnectionError::FramingError => lit("amqp:connection:framing-error"),
        ConnectionError::Redirect => lit("amqp:connection:redirect"),
    }
}

fn session_error_to_symbol(e: SessionError) -> (r: String)
    ensures
        r@ == session_error_symbol(e),
{
    match e {
        SessionError::WindowViolation => lit("amqp:session:window-violation"),
        SessionError::ErrantLink => lit("amqp:session:errant-link"),
        SessionError::HandleInUse => lit("amqp:session:handle-in-use"),
        SessionError::UnattachedHandle => lit("amqp:session:unattached-handle"),
    }
}

fn link_error_to_symbol(e: LinkError) -> (r: String)
    ensures
        r@ == link_error_symbol(e),
{
    match e {
        LinkError::DetachForced => lit("amqp:link:detach-forced"),
        LinkError::TransferLimitExceeded => lit("amqp:link:transfer-limit-exceeded"),
        LinkError::MessageSizeExceeded => lit("amqp:link:message-size-exceeded"),
        LinkError::Redirect => lit("amqp:link:redirect"),
        LinkError::Stolen => lit("amqp:link:stolen"),
    }
}

const AMQP_ERRORS: [AmqpError; 13] = [
    AmqpError::InternalError,
    AmqpError::NotFound,
    AmqpError::UnauthorizedAccess,
    AmqpError::DecodeError,
    AmqpError::ResourceLimitExceeded,
    AmqpError::NotAllowed,
    AmqpError::InvalidField,
    AmqpError::NotImplemented,
    AmqpError::ResourceLocked,
    AmqpError::PreconditionFailed,
    AmqpError::ResourceDeleted,
    AmqpError::IllegalState,
    AmqpError::FrameSizeTooSmall,
];

impl ErrorCondition {
    /// The symbol that stands for this condition on the wire.
    pub fn to_symbol(&self) -> (r: String)
        ensures
            r@ == condition_symbol(*self),
    {
        match self {
            ErrorCondition::AmqpError(e) => amqp_error_to_symbol(*e),
            ErrorCondition::ConnectionError(e) => connection_error_to_symbol(*e),
            ErrorCondition::SessionError(e) => session_error_to_symbol(*e),
            ErrorCondition::LinkError(e) => link_error_to_symbol(*e),
            ErrorCondition::Custom(s) => s.0.clone(),
        }
    }

    /// Reads a condition from its wire symbol: the standard condition of that
    /// name, else a custom condition holding the symbol.
    pub fn from_symbol(s: &String) -> (r: ErrorCondition)
        ensures
            condition_symbol(r) == s@,
            (r is Custom) <==> !is_standard_symbol(s@),
    {
        let mut i: usize = 0;
        while i < 13
            invariant
                0 <= i <= 13,
                forall|j: int| 0 <= j < i ==> amqp_error_symbol(#[trigger] AMQP_ERRORS[j]) != s@,
            decreases 13 - i,
        {
            let e = AMQP_ERRORS[i];
            if amqp_error_to_symbol(e) == *s {
                return ErrorCondition::AmqpError(e);
            }
            i += 1;
        }
        assert(forall|e: AmqpError| amqp_error_symbol(e) != s@) by {
            assert forall|e: AmqpError| amqp_error_symbol(e) != s@ by {
                match e {
                    AmqpError::InternalError => assert(AMQP_ERRORS[0] == e),
                    AmqpError::NotFound => assert(AMQP_ERRORS[1] == e),
                    AmqpError::UnauthorizedAccess => assert(AMQP_ERRORS[2] == e),
                    AmqpError::DecodeError => assert(AMQP_ERRORS[3] == e),
                    AmqpError::ResourceLimitExceeded => assert(AMQP_ERRORS[4] == e),
                    AmqpError::NotAllowed => assert(AMQP_ERRORS[5] == e),
                    AmqpError::InvalidField => assert(AMQP_ERRORS[6] == e),
                    AmqpError::NotImplemented => assert(AMQP_ERRORS[7] == e),
                    AmqpError::ResourceLocked => assert(AMQP_ERRORS[8] == e),
                    AmqpError::PreconditionFailed => assert(AMQP_ERRORS[9] == e),
                    AmqpError::ResourceDeleted => assert(AMQP_ERRORS[10] == e),
                    AmqpError::IllegalState => assert(AMQP_ERRORS[11] == e),
                    AmqpError::FrameSizeTooSmall => assert(AMQP_ERRORS[12] == e),
                }
            }
        }
        if connection_error_to_symbol(ConnectionError::ConnectionForced) == *s {
            return ErrorCondition::ConnectionError(ConnectionError::ConnectionForced);
        }
        if connection_error_to_symbol(ConnectionError::FramingError) == *s {
            return ErrorCondition::ConnectionError(ConnectionError::FramingError);
        }
        if connection_error_to_symbol(ConnectionError::Redirect) == *s {
            return ErrorCondition::ConnectionError(ConnectionError::Redirect);
        }
        assert(forall|e: ConnectionError| connection_error_symbol(e) != s@) by {
            assert forall|e: ConnectionError| connection_error_symbol(e) != s@ by {
                match e {
                    ConnectionError::ConnectionForced => {},
                    ConnectionError::FramingError => {},
                    ConnectionError::Redirect => {},
                }
            }
        }
        if session_error_to_symbol(SessionError::WindowViolation) == *s {
            return ErrorCondition::SessionError(SessionError::WindowViolation);
        }
        if session_error_to_symbol(SessionError::ErrantLink) == *s {
            return ErrorCondition::SessionError(SessionError::ErrantLink);
        }
        if session_error_to_symbol(SessionError::HandleInUse) == *s {
            return ErrorCondition::SessionError(SessionError::HandleInUse);
        }
        if session_error_to_symbol(SessionError::UnattachedHandle) == *s {
            return ErrorCondition::SessionError(SessionError::UnattachedHandle);
        }
        assert(forall|e: SessionError| session_error_symbol(e) != s@) by {
            assert forall|e: SessionError| session_error_symbol(e) != s@ by {
                match e {
                    SessionError::WindowViolation => {},
                    SessionError::ErrantLink => {},
                    SessionError::HandleInUse => {},
                    SessionError::UnattachedHandle => {},
                }
            }
        }
        if link_error_to_symbol(LinkError::DetachForced) == *s {
            return ErrorCondition::LinkError(LinkError::DetachForced);
        }
        if link_error_to_symbol(LinkError::TransferLimitExceeded) == *s {
            return ErrorCondition::LinkError(LinkError::TransferLimitExceeded);
        }
        if link_error_to_symbol(LinkError::MessageSizeExceeded) == *s {
            return ErrorCondition::LinkError(LinkError::MessageSizeExceeded);
        }
        if link_error_to_symbol(LinkError::Redirect) == *s {
            return ErrorCondition::LinkError(LinkError::Redirect);
        }
        if link_error_to_symbol(LinkError::Stolen) == *s {
            return ErrorCondition::LinkError(LinkError::Stolen);
        }
        assert(forall|e: LinkError| link_error_symbol(e) != s@) by {
            assert forall|e: LinkError| link_error_symbol(e) != s@ by {
                match e {
                    LinkError::DetachForced => {},
                    LinkError::TransferLimitExceeded => {},
                    LinkError::MessageSizeExceeded => {},
                    LinkError::Redirect => {},
                    LinkError::Stolen => {},
                }
            }
        }
        ErrorCondition::Custom(Symbol(s.clone()))
    }
}

/// An error as carried by `detach`, `end` and `close`.
#[derive(Clone, Debug)]
pub struct Error {
    pub condition: ErrorCondition,
    pub description: Option<String>,
}

impl ErrorCondition {
    /// A copy of this condition.
    pub fn copy(&self) -> (r: ErrorCondition)
        ensures
            r == *self,
    {
        match self {
            ErrorCondition::AmqpError(e) => ErrorCondition::AmqpError(*e),
            ErrorCondition::ConnectionError(e) => ErrorCondition::ConnectionError(*e),
            ErrorCondition::SessionError(e) => ErrorCondition::SessionError(*e),
            ErrorCondition::LinkError(e) => ErrorCondition::LinkError(*e),
            ErrorCondition::Custom(s) => ErrorCondition::Custom(Symbol(s.0.clone())),
        }
    }
}

impl Error {
    /// A copy of this error.
    pub fn copy(&self) -> (r: Error)
        ensures
            r == *self,
    {
        Error {
            condition: self.condition.copy(),
            description: match &self.description {
                Some(d) => Some(d.clone()),
                None => None,
            },
        }
    }

    pub fn new(condition: ErrorCondition, description: Option<String>) -> (r: Error)
        ensures
            r.condition == condition,
            r.description == description,
    {
        Error { condition, description }
    }
}

/// How a link came to be detached.
#[derive(Debug)]
pub struct DetachError {
    pub is_closed_by_remote: bool,
    pub error: Option<Error>,
}

impl DetachError {
    pub fn new(is_closed_by_remote: bool, error: Option<Error>) -> (r: DetachError)
        ensures
            r.is_closed_by_remote == is_closed_by_remote,
            r.error == error,
    {
        DetachError { is_closed_by_remote, error }
    }

    pub fn is_closed_by_remote(&self) -> (r: bool)
        ensures
            r == self.is_closed_by_remote,
    {
        self.is_closed_by_remote
    }

    pub fn error_condition(&self) -> (r: Option<&ErrorCondition>)
        ensures
            self.error is Some <==> r is Some,
            self.error is Some ==> *r->0 == self.error->0.condition,
    {
        match &self.error {
            Some(e) => Some(&e.condition),
            None => None,
        }
    }

    pub fn into_error(self) -> (r: Option<Error>)
        ensures
            r == self.error,
    {
        self.error
    }
}

/// The detach error that stands for a peer that did not answer with `detach`.
pub fn detach_error_expecting_frame() -> (r: DetachError)
    ensures
        !r.is_closed_by_remote,
        r.error is Some,
        r.error->0.condition == ErrorCondition::AmqpError(AmqpError::IllegalState),
        r.error->0.description is Some,
        r.error->0.description->0@ == "Expecting remote detach frame"@,
{
    let error = Error::new(
        ErrorCondition::AmqpError(AmqpError::IllegalState),
        Some(lit("Expecting remote detach frame")),
    );
    DetachError { is_closed_by_remote: false, error: Some(error) }
}

/// Why sending a message failed, or its outcome when it was not accepted.
#[derive(Debug)]
pub enum SendError {
    Local(Error),
    Detached(DetachError),
    Rejected { error: Option<Error> },
    Released,
    Modified { delivery_failed: bool, undeliverable_here: bool },
}

impl SendError {
    pub fn not_implemented(description: Option<String>) -> (r: SendError)
        ensures
            r is Local,
            r->Local_0.condition == ErrorCondition::AmqpError(AmqpError::NotImplemented),
            r->Local_0.description == description,
    {
        SendError::Local(Error::new(ErrorCondition::AmqpError(AmqpError::NotImplemented), description))
    }

    pub fn not_allowed(description: Option<String>) -> (r: SendError)
        ensures
            r is Local,
            r->Local_0.condition == ErrorCondition::AmqpError(AmqpError::NotAllowed),
            r->Local_0.description == description,
    {
        SendError::Local(Error::new(ErrorCondition::AmqpError(AmqpError::NotAllowed), description))
    }

    /// The transaction named in a reply is not the one that was expected.
    pub fn mismatched_transaction_id(expecting: &Vec<u8>, found: &Vec<u8>) -> (r: SendError)
        ensures
            r is Local,
            r->Local_0.condition == ErrorCondition::AmqpError(AmqpError::NotImplemented),
            r->Local_0.description is Some,
            r->Local_0.description->0@ == "Found mismatched transaction ID"@,
    {
        SendError::Local(
            Error::new(
                ErrorCondition::AmqpError(AmqpError::NotImplemented),
                Some(lit("Found mismatched transaction ID")),
            ),
        )
    }

    pub fn expecting_outcome() -> (r: SendError)
        ensures
            r is Local,
            r->Local_0.condition == ErrorCondition::AmqpError(AmqpError::NotImplemented),
            r->Local_0.description is Some,
            r->Local_0.description->0@ == "Expecting an outcome, found None"@,
    {
        SendError::Local(
            Error::new(
                ErrorCondition::AmqpError(AmqpError::NotImplemented),
                Some(lit("Expecting an outcome, found None")),
            ),
        )
    }
}

/// Why attaching a link failed.
#[derive(Debug)]
pub enum AttachError {
    IllegalSessionState,
    DuplicatedLinkName,
    SourceIsNone,
    TargetIsNone,
    Local(Error),
}

impl AttachError {
    pub fn illegal_state(description: Option<String>) -> (r: AttachError)
        ensures
            r is Local,
            r->Local_0.condition == ErrorCondition::AmqpError(AmqpError::IllegalState),
            r->Local_0.description == description,
    {
        AttachError::Local(Error::new(ErrorCondition::AmqpError(AmqpError::IllegalState), description))
    }

    pub fn not_implemented(description: Option<String>) -> (r: AttachError)
        ensures
            r is Local,
            r->Local_0.condition == ErrorCondition::AmqpError(AmqpError::NotImplemented),
            r->Local_0.description == description,
    {
        AttachError::Local(Error::new(ErrorCondition::AmqpError(AmqpError::NotImplemented), description))
    }

    pub fn not_allowed(description: Option<String>) -> (r: AttachError)
        ensures
            r is Local,
            r->Local_0.condition == ErrorCondition::AmqpError(AmqpError::NotAllowed),
            r->Local_0.description == description,
    {
        AttachError::Local(Error::new(ErrorCondition::AmqpError(AmqpError::NotAllowed), description))
    }
}

/// Why a sender could not take a unit of credit without waiting.
#[derive(Clone, Copy, Debug, PartialEq, Eq, Structural)]
pub enum SenderTryConsumeError {
    TryLockError,
    InsufficientCredit,
}

/// Why a new session could not be given a channel.
#[derive(Clone, Copy, Debug, PartialEq, Eq, Structural)]
pub enum AllocSessionError {
    IllegalState,
    ChannelMaxReached,
}

/// Why a new link could not be given a handle.
#[derive(Clone, Copy, Debug, PartialEq, Eq, Structural)]
pub enum AllocLinkError {
    IllegalState,
    DuplicatedLinkName,
    HandleMaxReached,
}

} // verus!
