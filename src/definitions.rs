//! Protocol-level definitions shared by the engines: roles, settle modes,
//! delivery states and the terminus descriptions carried by `attach`.
use vstd::prelude::*;
use crate::error::Error;

verus! {

/// Sequence number of a delivery on a session (RFC-1982 serial arithmetic).
pub type DeliveryNumber = u32;

/// Sequence number used for transfer-ids and delivery counts.
pub type SequenceNo = u32;

/// Link handle.
pub type Handle = u32;

/// A symbolic value: an ASCII name such as `amqp:decode-error`.
#[derive(Debug, Clone)]
pub struct Symbol(pub String);

impl Symbol {
    /// Wraps a string as a symbol.
    pub fn new(val: String) -> (r: Symbol)
        ensures
            r.0@ == val@,
    {
        Symbol(val)
    }

    /// Takes the string back out of the symbol.
    pub fn into_inner(self) -> (r: String)
        ensures
            r@ == self.0@,
    {
        self.0
    }
}

/// Which end of a link an endpoint is.
#[derive(Clone, Copy, Debug, PartialEq, Eq, Structural)]
pub enum Role {
    Sender,
    Receiver,
}

/// Settlement policy of the sending end of a link.
#[derive(Clone, Copy, Debug, PartialEq, Eq, Structural)]
pub enum SenderSettleMode {
    Unsettled,
    Settled,
    Mixed,
}

/// Settlement policy of the receiving end of a link.
#[derive(Clone, Copy, Debug, PartialEq, Eq, Structural)]
pub enum ReceiverSettleMode {
    First,
    Second,
}

/// A terminal outcome of a delivery.
#[derive(Clone, Copy, Debug, PartialEq, Eq, Structural)]
pub enum Outcome {
    Accepted,
    Rejected,
    Released,
    Modified { delivery_failed: bool, undeliverable_here: bool },
}

/// The state of a delivery as carried by `transfer` and `disposition`.
#[derive(Clone, Debug)]
pub enum DeliveryState {
    Received { section_number: u32, section_offset: u64 },
    Accepted,
    /// Refused by the receiver, with the error that says why.
    Rejected { error: Option<Error> },
    Released,
    Modified { delivery_failed: bool, undeliverable_here: bool },
    Declared { txn_id: Vec<u8> },
    TransactionalState { txn_id: Vec<u8>, outcome: Option<Outcome> },
}

impl DeliveryState {
    /// A state after which the delivery can no longer change.
    pub open spec fn is_terminal_spec(&self) -> bool {
        match self {
            DeliveryState::Received { .. } => false,
            DeliveryState::TransactionalState { .. } => false,
            _ => true,
        }
    }

    #[verifier::when_used_as_spec(is_terminal_spec)]
    pub fn is_terminal(&self) -> (r: bool)
        ensures
            r == self.is_terminal_spec(),
    {
        match self {
            DeliveryState::Received { .. } => false,
            DeliveryState::TransactionalState { .. } => false,
            _ => true,
        }
    }
}

/// Two delivery states are alike: same variant, same fields, transaction
/// ids byte for byte.
pub open spec fn same_state(a: DeliveryState, b: DeliveryState) -> bool {
    match (a, b) {
        (
            DeliveryState::Received { section_number: n1, section_offset: o1 },
            DeliveryState::Received { section_number: n2, section_offset: o2 },
        ) => n1 == n2 && o1 == o2,
        (DeliveryState::Accepted, DeliveryState::Accepted) => true,
        (DeliveryState::Rejected { error: e1 }, DeliveryState::Rejected { error: e2 }) => e1 == e2,
        (DeliveryState::Released, DeliveryState::Released) => true,
        (
            DeliveryState::Modified { delivery_failed: f1, undeliverable_here: u1 },
            DeliveryState::Modified { delivery_failed: f2, undeliverable_here: u2 },
        ) => f1 == f2 && u1 == u2,
        (DeliveryState::Declared { txn_id: t1 }, DeliveryState::Declared { txn_id: t2 }) => t1@
            == t2@,
        (
            DeliveryState::TransactionalState { txn_id: t1, outcome: c1 },
            DeliveryState::TransactionalState { txn_id: t2, outcome: c2 },
        ) => t1@ == t2@ && c1 == c2,
        _ => false,
    }
}

impl DeliveryState {
    /// A copy of this state.
    pub fn copy(&self) -> (r: DeliveryState)
        ensures
            same_state(r, *self),
    {
        match self {
            DeliveryState::Received { section_number, section_offset } => DeliveryState::Received {
                section_number: *section_number,
                section_offset: *section_offset,
            },
            DeliveryState::Accepted => DeliveryState::Accepted,
            DeliveryState::Rejected { error } => DeliveryState::Rejected {
                error: match error {
                    Some(e) => Some(e.copy()),
                    None => None,
                },
            },
            DeliveryState::Released => DeliveryState::Released,
            DeliveryState::Modified { delivery_failed, undeliverable_here } => DeliveryState::Modified {
                delivery_failed: *delivery_failed,
                undeliverable_here: *undeliverable_here,
            },
            DeliveryState::Declared { txn_id } => DeliveryState::Declared { txn_id: txn_id.clone() },
            DeliveryState::TransactionalState { txn_id, outcome } => DeliveryState::TransactionalState {
                txn_id: txn_id.clone(),
                outcome: *outcome,
            },
        }
    }
}

/// Lifetime policy of a terminus.
#[derive(Clone, Copy, Debug, PartialEq, Eq, Structural)]
pub enum TerminusDurability {
    NoDurability,
    Configuration,
    UnsettledState,
}

/// When the expiry timer of a terminus starts.
#[derive(Clone, Copy, Debug, PartialEq, Eq, Structural)]
pub enum TerminusExpiryPolicy {
    LinkDetach,
    SessionEnd,
    ConnectionClose,
    Never,
}

/// The source of a link: where messages come from.
#[derive(Clone, Debug)]
pub struct Source {
    pub address: Option<String>,
    pub durable: TerminusDurability,
    pub expiry_policy: TerminusExpiryPolicy,
    pub timeout: u32,
    pub dynamic: bool,
    /// The filter set, held as its encoded map.
    pub filter: Option<Vec<u8>>,
    pub capabilities: Option<Vec<Symbol>>,
}

/// The target of a link: where messages go.
#[derive(Clone, Debug)]
pub struct Target {
    pub address: Option<String>,
    pub durable: TerminusDurability,
    pub expiry_policy: TerminusExpiryPolicy,
    pub timeout: u32,
    pub dynamic: bool,
    pub capabilities: Option<Vec<Symbol>>,
}

/// The names of a list of capabilities.
pub open spec fn caps_view(o: Option<Vec<Symbol>>) -> Option<Seq<Seq<char>>> {
    match o {
        Some(v) => Some(v@.map_values(|s: Symbol| s.0@)),
        None => None,
    }
}

/// The bytes of an optional byte string.
pub open spec fn opt_bytes_view(o: Option<Vec<u8>>) -> Option<Seq<u8>> {
    match o {
        Some(v) => Some(v@),
        None => None,
    }
}

impl Symbol {
    /// A copy of this symbol.
    pub fn copy(&self) -> (r: Symbol)
        ensures
            r.0@ == self.0@,
    {
        Symbol(self.0.clone())
    }
}

/// A copy of a list of capabilities.
pub fn copy_caps(o: &Option<Vec<Symbol>>) -> (r: Option<Vec<Symbol>>)
    ensures
        caps_view(r) == caps_view(*o),
{
    match o {
        None => None,
        Some(v) => {
            let mut out: Vec<Symbol> = Vec::new();
            let mut i: usize = 0;
            while i < v.len()
                invariant
                    0 <= i <= v@.len(),
                    out@.map_values(|s: Symbol| s.0@) == v@.take(i as int).map_values(|s: Symbol| s.0@),
                decreases v.len() - i,
            {
                let ghost before = out@;
                out.push(v[i].copy());
                assert(out@.map_values(|s: Symbol| s.0@) =~= before.map_values(|s: Symbol| s.0@).push(v@[i as int].0@));
                assert(v@.take(i + 1) =~= v@.take(i as int).push(v@[i as int]));
                assert(v@.take(i + 1).map_values(|s: Symbol| s.0@) =~= v@.take(i as int).map_values(|s: Symbol| s.0@).push(v@[i as int].0@));
                i += 1;
            }
            assert(v@.take(i as int) =~= v@);
            Some(out)
        },
    }
}

fn symbols_eq(x: &Vec<Symbol>, y: &Vec<Symbol>) -> (r: bool)
    ensures
        r == (x@.map_values(|s: Symbol| s.0@) == y@.map_values(|s: Symbol| s.0@)),
{
    if x.len() != y.len() {
        assert(x@.map_values(|s: Symbol| s.0@).len() != y@.map_values(|s: Symbol| s.0@).len());
        return false;
    }
    let mut i: usize = 0;
    while i < x.len()
        invariant
            x@.len() == y@.len(),
            0 <= i <= x@.len(),
            forall|k: int| 0 <= k < i ==> #[trigger] x@[k].0@ == y@[k].0@,
        decreases x.len() - i,
    {
        if x[i].0 != y[i].0 {
            assert(x@.map_values(|s: Symbol| s.0@)[i as int] != y@.map_values(|s: Symbol| s.0@)[i as int]);
            return false;
        }
        i += 1;
    }
    assert(x@.map_values(|s: Symbol| s.0@) =~= y@.map_values(|s: Symbol| s.0@));
    true
}

/// Whether two lists of capabilities name the same capabilities in order.
pub fn caps_eq(a: &Option<Vec<Symbol>>, b: &Option<Vec<Symbol>>) -> (r: bool)
    ensures
        r == (caps_view(*a) == caps_view(*b)),
{
    match (a, b) {
        (None, None) => true,
        (Some(x), Some(y)) => symbols_eq(x, y),
        _ => false,
    }
}

/// Whether two optional byte strings hold the same bytes.
pub fn opt_bytes_eq(a: &Option<Vec<u8>>, b: &Option<Vec<u8>>) -> (r: bool)
    ensures
        r == (opt_bytes_view(*a) == opt_bytes_view(*b)),
{
    match (a, b) {
        (None, None) => true,
        (Some(x), Some(y)) => crate::link::bytes_eq(x, y),
        _ => false,
    }
}

/// A transaction coordinator standing as the target of a control link.
#[derive(Clone, Debug)]
pub struct Coordinator {
    pub capabilities: Option<Vec<Symbol>>,
}

/// The target of a link: an ordinary node or a transaction coordinator.
#[derive(Clone, Debug)]
pub enum TargetArchetype {
    Target(Target),
    Coordinator(Coordinator),
}

/// What a target may stand for.
pub trait TargetArchetypeVariant {
    fn is_target(&self) -> bool;

    fn is_coordinator(&self) -> bool;
}

impl TargetArchetypeVariant for TargetArchetype {
    fn is_target(&self) -> (r: bool)
        ensures
            r == (*self is Target),
    {
        match self {
            TargetArchetype::Target(_) => true,
            TargetArchetype::Coordinator(_) => false,
        }
    }

    fn is_coordinator(&self) -> (r: bool)
        ensures
            r == (*self is Coordinator),
    {
        match self {
            TargetArchetype::Target(_) => false,
            TargetArchetype::Coordinator(_) => true,
        }
    }
}

/// Equality of two optional strings, by their characters.
pub open spec fn opt_str_eq(a: Option<String>, b: Option<String>) -> bool {
    match (a, b) {
        (Some(x), Some(y)) => x@ == y@,
        (None, None) => true,
        _ => false,
    }
}

pub fn opt_string_eq(a: &Option<String>, b: &Option<String>) -> (r: bool)
    ensures
        r == opt_str_eq(*a, *b),
{
    match (a, b) {
        (Some(x), Some(y)) => *x == *y,
        (None, None) => true,
        _ => false,
    }
}

/// Two sources describe the same terminus.
pub open spec fn source_matches(a: Source, b: Source) -> bool {
    &&& opt_str_eq(a.address, b.address)
    &&& a.durable == b.durable
    &&& a.expiry_policy == b.expiry_policy
    &&& a.timeout == b.timeout
    &&& a.dynamic == b.dynamic
    &&& opt_bytes_view(a.filter) == opt_bytes_view(b.filter)
    &&& caps_view(a.capabilities) == caps_view(b.capabilities)
}

/// Two targets describe the same terminus.
pub open spec fn target_matches(a: Target, b: Target) -> bool {
    &&& opt_str_eq(a.address, b.address)
    &&& a.durable == b.durable
    &&& a.expiry_policy == b.expiry_policy
    &&& a.timeout == b.timeout
    &&& a.dynamic == b.dynamic
    &&& caps_view(a.capabilities) == caps_view(b.capabilities)
}

impl Source {
    /// Checks the peer's proposed source against this one.
    pub fn matches(&self, other: &Source) -> (r: bool)
        ensures
            r == source_matches(*self, *other),
    {
        opt_string_eq(&self.address, &other.address) && self.durable == other.durable
            && self.expiry_policy == other.expiry_policy && self.timeout == other.timeout
            && self.dynamic == other.dynamic && opt_bytes_eq(&self.filter, &other.filter)
            && caps_eq(&self.capabilities, &other.capabilities)
    }
}

impl Target {
    /// Checks the peer's proposed target against this one.
    pub fn matches(&self, other: &Target) -> (r: bool)
        ensures
            r == target_matches(*self, *other),
    {
        opt_string_eq(&self.address, &other.address) && self.durable == other.durable
            && self.expiry_policy == other.expiry_policy && self.timeout == other.timeout
            && self.dynamic == other.dynamic && caps_eq(&self.capabilities, &other.capabilities)
    }
}

/// Two optional sources describe the same terminus.
pub open spec fn opt_source_same(a: Option<Source>, b: Option<Source>) -> bool {
    match (a, b) {
        (Some(x), Some(y)) => source_matches(x, y),
        (None, None) => true,
        _ => false,
    }
}

/// Two optional targets describe the same terminus.
pub open spec fn opt_target_same(a: Option<TargetArchetype>, b: Option<TargetArchetype>) -> bool {
    match (a, b) {
        (Some(TargetArchetype::Target(x)), Some(TargetArchetype::Target(y))) => target_matches(x, y),
        (Some(TargetArchetype::Coordinator(x)), Some(TargetArchetype::Coordinator(y))) => caps_view(
            x.capabilities,
        ) == caps_view(y.capabilities),
        (None, None) => true,
        _ => false,
    }
}

fn copy_opt_string(o: &Option<String>) -> (r: Option<String>)
    ensures
        r == *o,
{
    match o {
        Some(s) => Some(s.clone()),
        None => None,
    }
}

fn copy_opt_bytes(o: &Option<Vec<u8>>) -> (r: Option<Vec<u8>>)
    ensures
        opt_bytes_view(r) == opt_bytes_view(*o),
{
    match o {
        Some(v) => Some(v.clone()),
        None => None,
    }
}

impl Source {
    /// A copy of this source.
    pub fn copy(&self) -> (r: Source)
        ensures
            source_matches(r, *self),
    {
        Source {
            address: copy_opt_string(&self.address),
            durable: self.durable,
            expiry_policy: self.expiry_policy,
            timeout: self.timeout,
            dynamic: self.dynamic,
            filter: copy_opt_bytes(&self.filter),
            capabilities: copy_caps(&self.capabilities),
        }
    }
}

impl Target {
    /// A copy of this target.
    pub fn copy(&self) -> (r: Target)
        ensures
            target_matches(r, *self),
    {
        Target {
            address: copy_opt_string(&self.address),
            durable: self.durable,
            expiry_policy: self.expiry_policy,
            timeout: self.timeout,
            dynamic: self.dynamic,
            capabilities: copy_caps(&self.capabilities),
        }
    }
}

/// A copy of an optional source.
pub fn copy_source(o: &Option<Source>) -> (r: Option<Source>)
    ensures
        opt_source_same(r, *o),
{
    match o {
        Some(s) => Some(s.copy()),
        None => None,
    }
}

/// A copy of an optional target.
pub fn copy_target(o: &Option<TargetArchetype>) -> (r: Option<TargetArchetype>)
    ensures
        opt_target_same(r, *o),
{
    match o {
        Some(TargetArchetype::Target(t)) => Some(TargetArchetype::Target(t.copy())),
        Some(TargetArchetype::Coordinator(c)) => Some(
            TargetArchetype::Coordinator(Coordinator { capabilities: copy_caps(&c.capabilities) }),
        ),
        None => None,
    }
}

} // verus!
