//! Link endpoints: attach negotiation, credit-based flow control, splitting
//! of deliveries into transfers, assembly of incoming transfers, settlement
//! and the resumption of unsettled deliveries on re-attach.
use vstd::prelude::*;
use vstd::relations::{sorted_by, total_ordering};
use crate::definitions::{
    same_state, source_matches, target_matches, DeliveryNumber, DeliveryState, Handle,
    ReceiverSettleMode, Role, SenderSettleMode, SequenceNo, Source, TargetArchetype,
};
use crate::codec::copy_range;
use crate::error::{AmqpError, Error, ErrorCondition, SenderTryConsumeError};

verus! {

/// 2^32: the modulus of sequence-number arithmetic.
pub const SEQ_MOD: u64 = 0x1_0000_0000;

/// `a + n` in RFC-1982 serial arithmetic on 32 bits.
pub open spec fn seq_add(a: u32, n: int) -> u32 {
    ((a as int + n) % (SEQ_MOD as int)) as u32
}

/// Adds to a sequence number, wrapping at 2^32.
pub fn wrapping_seq_add(a: u32, n: u32) -> (r: u32)
    ensures
        r == seq_add(a, n as int),
{
    let s: u64 = a as u64 + n as u64;
    if s >= SEQ_MOD {
        (s - SEQ_MOD) as u32
    } else {
        s as u32
    }
}

/// State of a link endpoint in the attach/detach exchange.
#[derive(Clone, Copy, Debug, PartialEq, Eq, Structural)]
pub enum LinkState {
    Unattached,
    Detached,
    AttachSent,
    AttachReceived,
    Attached,
    IncompleteAttachSent,
    IncompleteAttachReceived,
    IncompleteAttachExchanged,
    DetachSent,
    DetachReceived,
    Closed,
}

/// Flow-control state of one link end.
#[derive(Clone, Copy, Debug, PartialEq, Eq, Structural)]
pub struct LinkFlowState {
    pub initial_delivery_count: SequenceNo,
    pub delivery_count: SequenceNo,
    pub link_credit: u32,
    pub available: u32,
    pub drain: bool,
}

/// A link-scoped `flow` performative.
#[derive(Clone, Copy, Debug, PartialEq, Eq, Structural)]
pub struct LinkFlow {
    pub handle: Handle,
    pub delivery_count: Option<SequenceNo>,
    pub link_credit: Option<u32>,
    pub available: Option<u32>,
    pub drain: bool,
    pub echo: bool,
}

impl LinkFlowState {
    pub open spec fn new_spec(initial_delivery_count: SequenceNo) -> LinkFlowState {
        LinkFlowState {
            initial_delivery_count,
            delivery_count: initial_delivery_count,
            link_credit: 0,
            available: 0,
            drain: false,
        }
    }

    /// The state of a fresh link end: no credit, nothing available, not
    /// draining, the delivery count at its initial value.
    pub fn new(initial_delivery_count: SequenceNo) -> (r: LinkFlowState)
        ensures
            r == LinkFlowState::new_spec(initial_delivery_count),
    {
        LinkFlowState {
            initial_delivery_count,
            delivery_count: initial_delivery_count,
            link_credit: 0,
            available: 0,
            drain: false,
        }
    }

    /// A sender takes `count` units of credit for new deliveries, and gets
    /// back the delivery count before them; fails without any change when
    /// the credit does not suffice.
    pub fn try_consume(&mut self, count: u32) -> (r: Result<SequenceNo, SenderTryConsumeError>)
        ensures
            old(self).link_credit < count ==> r == Err::<SequenceNo, SenderTryConsumeError>(
                SenderTryConsumeError::InsufficientCredit,
            ) && *final(self) == *old(self),
            old(self).link_credit >= count ==> {
                &&& r == Ok::<SequenceNo, SenderTryConsumeError>(old(self).delivery_count)
                &&& final(self).delivery_count == seq_add(old(self).delivery_count, count as int)
                &&& final(self).link_credit == old(self).link_credit - count
                &&& final(self).initial_delivery_count == old(self).initial_delivery_count
                &&& final(self).available == old(self).available
                &&& final(self).drain == old(self).drain
            },
    {
        if self.link_credit < count {
            return Err(SenderTryConsumeError::InsufficientCredit);
        }
        let before = self.delivery_count;
        self.link_credit = self.link_credit - count;
        self.delivery_count = wrapping_seq_add(self.delivery_count, count);
        Ok(before)
    }

    /// A sender takes in the receiver's flow state: its credit becomes
    /// `delivery_count(receiver) + link_credit(receiver) - delivery_count(sender)`,
    /// where a missing receiver count stands for the initial delivery count.
    pub fn on_incoming_flow_as_sender(
        &mut self,
        delivery_count: Option<SequenceNo>,
        link_credit: u32,
        drain: bool,
    )
        ensures
            final(self).link_credit == sender_credit(
                match delivery_count {
                    Some(c) => c,
                    None => old(self).initial_delivery_count,
                },
                link_credit,
                old(self).delivery_count,
            ),
            final(self).drain == drain,
            final(self).delivery_count == old(self).delivery_count,
            final(self).initial_delivery_count == old(self).initial_delivery_count,
            final(self).available == old(self).available,
    {
        let rcv_count = match delivery_count {
            Some(c) => c,
            None => self.initial_delivery_count,
        };
        let limit = wrapping_seq_add(rcv_count, link_credit);
        // limit - delivery_count, modulo 2^32
        let credit: u32 = if limit >= self.delivery_count {
            limit - self.delivery_count
        } else {
            ((limit as u64 + SEQ_MOD) - self.delivery_count as u64) as u32
        };
        self.link_credit = credit;
        self.drain = drain;
    }

    /// A draining sender with nothing to send uses up its credit by
    /// advancing the delivery count past it.
    pub fn drain_as_sender(&mut self)
        ensures
            old(self).drain ==> {
                &&& final(self).delivery_count == seq_add(
                    old(self).delivery_count,
                    old(self).link_credit as int,
                )
                &&& final(self).link_credit == 0
            },
            !old(self).drain ==> *final(self) == *old(self),
            final(self).drain == old(self).drain,
            final(self).initial_delivery_count == old(self).initial_delivery_count,
            final(self).available == old(self).available,
    {
        if self.drain {
            self.delivery_count = wrapping_seq_add(self.delivery_count, self.link_credit);
            self.link_credit = 0;
        }
    }
}

/// The credit a sender has after the receiver announced its count and credit.
pub open spec fn sender_credit(rcv_count: u32, rcv_credit: u32, snd_count: u32) -> u32 {
    ((seq_add(rcv_count, rcv_credit as int) as int - snd_count as int + SEQ_MOD as int) % (
    SEQ_MOD as int)) as u32
}

/// Negotiated maximum message size: zero means no limit on that side.
pub open spec fn max_message_size_spec(local: u64, remote: u64) -> u64 {
    if local == 0 {
        remote
    } else if remote == 0 {
        local
    } else if local <= remote {
        local
    } else {
        remote
    }
}

pub fn get_max_message_size(local: u64, remote: u64) -> (r: u64)
    ensures
        r == max_message_size_spec(local, remote),
{
    if local == 0 {
        remote
    } else if remote == 0 {
        local
    } else if local <= remote {
        local
    } else {
        remote
    }
}

/// The pieces a payload is cut into for a maximum message size `max`
/// (zero: no limit): all but the last are `max` bytes long.
pub open spec fn chunks(p: Seq<u8>, max: u64) -> Seq<Seq<u8>>
    decreases p.len(),
{
    if max == 0 || p.len() <= max {
        seq![p]
    } else {
        seq![p.take(max as int)] + chunks(p.skip(max as int), max)
    }
}

/// Cuts a payload into the pieces that the transfers of one delivery carry.
pub fn split_payload(payload: &Vec<u8>, max_message_size: u64) -> (r: Vec<Vec<u8>>)
    ensures
        r@.len() == chunks(payload@, max_message_size).len(),
        forall|i: int| 0 <= i < r@.len() ==> #[trigger] r@[i]@ == chunks(payload@, max_message_size)[i],
{
    let mut r: Vec<Vec<u8>> = Vec::new();
    let n = payload.len();
    if max_message_size == 0 || n as u64 <= max_message_size {
        r.push(copy_range(payload, 0, n));
        return r;
    }
    let m = max_message_size as usize;
    let mut start: usize = 0;
    proof {
        assert(payload@.skip(0) =~= payload@);
        assert(r@.map_values(|c: Vec<u8>| c@) + chunks(payload@, max_message_size) =~= chunks(
            payload@,
            max_message_size,
        ));
    }
    while n - start > m
        invariant
            0 < m,
            m as u64 == max_message_size,
            n == payload@.len(),
            start <= n,
            chunks(payload@, max_message_size) == r@.map_values(|c: Vec<u8>| c@) + chunks(
                payload@.skip(start as int),
                max_message_size,
            ),
        decreases n - start,
    {
        let piece = copy_range(payload, start, start + m);
        proof {
            let rest = payload@.skip(start as int);
            assert(rest.take(m as int) =~= payload@.subrange(start as int, start + m));
            assert(rest.skip(m as int) =~= payload@.skip(start + m));
            assert(chunks(rest, max_message_size) == seq![rest.take(m as int)] + chunks(
                rest.skip(m as int),
                max_message_size,
            ));
        }
        let ghost before = r@;
        r.push(piece);
        proof {
            assert(r@.map_values(|c: Vec<u8>| c@) =~= before.map_values(|c: Vec<u8>| c@).push(
                piece@,
            ));
            assert(r@.map_values(|c: Vec<u8>| c@) + chunks(
                payload@.skip(start + m),
                max_message_size,
            ) =~= before.map_values(|c: Vec<u8>| c@) + chunks(
                payload@.skip(start as int),
                max_message_size,
            ));
        }
        start = start + m;
    }
    let last = copy_range(payload, start, n);
    proof {
        let rest = payload@.skip(start as int);
        assert(rest =~= payload@.subrange(start as int, n as int));
        assert(chunks(rest, max_message_size) == seq![rest]);
    }
    let ghost before = r@;
    r.push(last);
    proof {
        assert(r@.map_values(|c: Vec<u8>| c@) =~= before.map_values(|c: Vec<u8>| c@).push(last@));
        assert(chunks(payload@, max_message_size) =~= r@.map_values(|c: Vec<u8>| c@));
        assert forall|i: int| 0 <= i < r@.len() implies #[trigger] r@[i]@ == chunks(
            payload@,
            max_message_size,
        )[i] by {
            assert(r@.map_values(|c: Vec<u8>| c@)[i] == r@[i]@);
        }
    }
    r
}

/// Byte-wise equality of two byte strings.
pub fn bytes_eq(a: &Vec<u8>, b: &Vec<u8>) -> (r: bool)
    ensures
        r == (a@ == b@),
{
    if a.len() != b.len() {
        return false;
    }
    let mut i: usize = 0;
    while i < a.len()
        invariant
            a@.len() == b@.len(),
            0 <= i <= a@.len(),
            a@.take(i as int) == b@.take(i as int),
        decreases a.len() - i,
    {
        if a[i] != b[i] {
            assert(a@[i as int] != b@[i as int]);
            return false;
        }
        assert(a@.take(i + 1) =~= a@.take(i as int).push(a@[i as int]));
        assert(b@.take(i + 1) =~= b@.take(i as int).push(b@[i as int]));
        i += 1;
    }
    assert(a@.take(i as int) =~= a@);
    assert(b@.take(i as int) =~= b@);
    true
}

/// The delivery tag made from a delivery count: its big-endian bytes
/// without leading zeros (a single zero byte for zero).
pub open spec fn tag_bytes(n: nat) -> Seq<u8>
    decreases n,
{
    if n < 256 {
        seq![n as u8]
    } else {
        tag_bytes(n / 256).push((n % 256) as u8)
    }
}

/// Makes the delivery tag of a delivery from the delivery count it was sent at.
pub fn delivery_tag_of(n: u32) -> (r: Vec<u8>)
    ensures
        r@ == tag_bytes(n as nat),
    decreases n,
{
    if n < 256 {
        let mut v: Vec<u8> = Vec::new();
        v.push(n as u8);
        v
    } else {
        let mut v = delivery_tag_of(n / 256);
        v.push((n % 256) as u8);
        v
    }
}

/// A `transfer` performative.
#[derive(Debug)]
pub struct Transfer {
    pub handle: Handle,
    pub delivery_id: Option<DeliveryNumber>,
    pub delivery_tag: Option<Vec<u8>>,
    pub message_format: Option<u32>,
    pub settled: Option<bool>,
    pub more: bool,
    pub rcv_settle_mode: Option<ReceiverSettleMode>,
    pub state: Option<DeliveryState>,
    pub resume: bool,
    pub aborted: bool,
    pub batchable: bool,
}

/// A transfer with the part of the payload it carries.
#[derive(Debug)]
pub struct TransferFrame {
    pub performative: Transfer,
    pub payload: Vec<u8>,
}

/// The frames of one delivery: piece `i` of the payload in frame `i`; only
/// the first names the tag, format and settlement; all but the last have
/// `more` set.
pub open spec fn is_delivery_split(
    frames: Seq<TransferFrame>,
    handle: Handle,
    tag: Seq<u8>,
    message_format: Option<u32>,
    settled: bool,
    payload: Seq<u8>,
    max_message_size: u64,
) -> bool {
    let pieces = chunks(payload, max_message_size);
    &&& frames.len() == pieces.len()
    &&& forall|i: int|
        0 <= i < frames.len() ==> {
            let t = #[trigger] frames[i].performative;
            &&& frames[i].payload@ == pieces[i]
            &&& t.handle == handle
            &&& t.delivery_id is None
            &&& t.more == (i + 1 < frames.len())
            &&& !t.aborted
            &&& !t.resume
            &&& (i == 0 ==> t.delivery_tag is Some && t.delivery_tag->0@ == tag
                && t.message_format == message_format && t.settled == Some(settled))
            &&& (i > 0 ==> t.delivery_tag is None && t.message_format is None
                && t.settled is None && t.state is None)
        }
}

/// Builds the transfers of one delivery. The first transfer carries the
/// given state; continuations inherit it.
pub fn split_into_transfers(
    handle: Handle,
    tag: &Vec<u8>,
    message_format: Option<u32>,
    settled: bool,
    state: Option<DeliveryState>,
    batchable: bool,
    payload: &Vec<u8>,
    max_message_size: u64,
) -> (r: Vec<TransferFrame>)
    ensures
        is_delivery_split(r@, handle, tag@, message_format, settled, payload@, max_message_size),
{
    let pieces = split_payload(payload, max_message_size);
    let n = pieces.len();
    let mut frames: Vec<TransferFrame> = Vec::new();
    let mut state = state;
    let mut pieces = pieces;
    let ghost all = pieces@;
    let mut i: usize = 0;
    while i < n
        invariant
            n == all.len(),
            n == chunks(payload@, max_message_size).len(),
            n >= 1,
            0 <= i <= n,
            pieces@ == all.skip(i as int),
            frames@.len() == i,
            forall|j: int| 0 <= j < all.len() ==> #[trigger] all[j]@ == chunks(payload@, max_message_size)[j],
            forall|j: int|
                0 <= j < i ==> {
                    let t = #[trigger] frames@[j].performative;
                    &&& frames@[j].payload@ == chunks(payload@, max_message_size)[j]
                    &&& t.handle == handle
                    &&& t.delivery_id is None
                    &&& t.more == (j + 1 < n)
                    &&& !t.aborted
                    &&& !t.resume
                    &&& (j == 0 ==> t.delivery_tag is Some && t.delivery_tag->0@ == tag@
                        && t.message_format == message_format && t.settled == Some(settled))
                    &&& (j > 0 ==> t.delivery_tag is None && t.message_format is None
                        && t.settled is None && t.state is None)
                },
        decreases n - i,
    {
        let piece = pieces.remove(0);
        assert(piece@ == all[i as int]@);
        assert(pieces@ =~= all.skip(i + 1));
        let first = i == 0;
        let performative = if first {
            Transfer {
                handle,
                delivery_id: None,
                delivery_tag: Some(tag.clone()),
                message_format,
                settled: Some(settled),
                more: i + 1 < n,
                rcv_settle_mode: None,
                state: state.take(),
                resume: false,
                aborted: false,
                batchable,
            }
        } else {
            Transfer {
                handle,
                delivery_id: None,
                delivery_tag: None,
                message_format: None,
                settled: None,
                more: i + 1 < n,
                rcv_settle_mode: None,
                state: None,
                resume: false,
                aborted: false,
                batchable,
            }
        };
        frames.push(TransferFrame { performative, payload: piece });
        i += 1;
    }
    frames
}

/// A delivery that was sent and is not settled yet.
#[derive(Debug)]
pub struct UnsettledMessage {
    pub tag: Vec<u8>,
    pub state: Option<DeliveryState>,
    pub payload: Vec<u8>,
}

/// The unsettled map held in a vector: a later entry for a tag hides
/// earlier ones.
pub open spec fn unsettled_map(s: Seq<UnsettledMessage>) -> Map<Seq<u8>, UnsettledMessage>
    decreases s.len(),
{
    if s.len() == 0 {
        Map::empty()
    } else {
        unsettled_map(s.drop_last()).insert(s.last().tag@, s.last())
    }
}

/// Takes the entry of a tag out of the unsettled map.
pub fn remove_unsettled(v: &mut Vec<UnsettledMessage>, tag: &Vec<u8>) -> (r: Option<
    UnsettledMessage,
>)
    ensures
        unsettled_map(final(v)@) == unsettled_map(old(v)@).remove(tag@),
        r is Some <==> unsettled_map(old(v)@).contains_key(tag@),
        r is Some ==> r->0 == unsettled_map(old(v)@)[tag@],
{
    let ghost all = v@;
    let mut kept: Vec<UnsettledMessage> = Vec::new();
    let mut found: Option<UnsettledMessage> = None;
    let n = v.len();
    let mut i: usize = 0;
    assert(all.take(0) =~= Seq::<UnsettledMessage>::empty());
    assert(unsettled_map(kept@) =~= unsettled_map(all.take(0)).remove(tag@));
    while i < n
        invariant
            n == all.len(),
            0 <= i <= n,
            v@ == all.skip(i as int),
            unsettled_map(kept@) == unsettled_map(all.take(i as int)).remove(tag@),
            found is Some <==> unsettled_map(all.take(i as int)).contains_key(tag@),
            found is Some ==> found->0 == unsettled_map(all.take(i as int))[tag@],
        decreases n - i,
    {
        let e = v.remove(0);
        assert(e == all[i as int]);
        assert(v@ =~= all.skip(i + 1));
        assert(all.take(i + 1).drop_last() =~= all.take(i as int));
        let ghost prev = unsettled_map(all.take(i as int));
        if bytes_eq(&e.tag, tag) {
            assert(unsettled_map(all.take(i + 1)).remove(tag@) =~= prev.remove(tag@));
            found = Some(e);
        } else {
            let ghost before = kept@;
            kept.push(e);
            assert(kept@.drop_last() =~= before);
            assert(unsettled_map(kept@) =~= unsettled_map(all.take(i + 1)).remove(tag@));
        }
        i += 1;
    }
    assert(all.take(n as int) =~= all);
    *v = kept;
    found
}

/// Puts an entry into the unsettled map, replacing the one of the same tag.
pub fn insert_unsettled(v: &mut Vec<UnsettledMessage>, msg: UnsettledMessage)
    ensures
        unsettled_map(final(v)@) == unsettled_map(old(v)@).insert(msg.tag@, msg),
{
    let _ = remove_unsettled(v, &msg.tag);
    let ghost mid = v@;
    v.push(msg);
    assert(v@.drop_last() =~= mid);
    assert(unsettled_map(v@) =~= unsettled_map(old(v)@).insert(msg.tag@, msg));
}

/// Whether the sending end settles a delivery on its first transfer.
pub open spec fn settled_for(mode: SenderSettleMode, requested: Option<bool>) -> bool {
    match mode {
        SenderSettleMode::Settled => true,
        SenderSettleMode::Unsettled => false,
        SenderSettleMode::Mixed => match requested {
            Some(b) => b,
            None => false,
        },
    }
}

/// How a sent delivery stands when the sender has emitted it.
#[derive(Debug)]
pub enum Settlement {
    /// Settled on sending: no outcome will follow.
    Settled(Vec<u8>),
    /// In the unsettled map until the peer's disposition comes.
    Unsettled(Vec<u8>),
}

/// Why a delivery could not be sent.
#[derive(Clone, Copy, Debug, PartialEq, Eq, Structural)]
pub enum LinkStateError {
    IllegalState,
    IllegalSessionState,
    InsufficientCredit,
    RemoteDetached,
    RemoteClosed,
    ExpectImmediateDetach,
}

/// Why a `flow` could not be sent.
#[derive(Clone, Copy, Debug, PartialEq, Eq, Structural)]
pub enum FlowError {
    IllegalState,
    IllegalSessionState,
}

/// Records a new state for the delivery of a tag, if it is unsettled.
pub fn set_unsettled_state(v: &mut Vec<UnsettledMessage>, tag: &Vec<u8>, state: DeliveryState)
    ensures
        unsettled_map(final(v)@).dom() == unsettled_map(old(v)@).dom(),
        unsettled_map(final(v)@).remove(tag@) == unsettled_map(old(v)@).remove(tag@),
        unsettled_map(old(v)@).contains_key(tag@) ==> {
            let e = unsettled_map(final(v)@)[tag@];
            let o = unsettled_map(old(v)@)[tag@];
            &&& e.tag@ == o.tag@
            &&& e.payload == o.payload
            &&& e.state == Some(state)
        },
{
    let ghost old_map = unsettled_map(v@);
    match remove_unsettled(v, tag) {
        Some(mut e) => {
            e.state = Some(state);
            let ghost e2 = e;
            insert_unsettled(v, e);
            proof {
                assert(old_map[tag@].tag@ == tag@) by {
                    lemma_unsettled_map_keys(old(v)@, tag@);
                }
                assert(unsettled_map(v@).dom() =~= old_map.dom());
                assert(unsettled_map(v@).remove(tag@) =~= old_map.remove(tag@));
            }
        },
        None => {
            assert(unsettled_map(v@) =~= old_map);
        },
    }
}

/// Each entry of the unsettled map is stored under its own tag.
pub proof fn lemma_unsettled_map_keys(s: Seq<UnsettledMessage>, t: Seq<u8>)
    requires
        unsettled_map(s).contains_key(t),
    ensures
        unsettled_map(s)[t].tag@ == t,
    decreases s.len(),
{
    if s.len() > 0 && s.last().tag@ != t {
        lemma_unsettled_map_keys(s.drop_last(), t);
    }
}

/// The ranges of consecutive delivery ids, in the order the ids come:
/// each pair is `(first, last)` of one run of ids that go up by one.
pub open spec fn id_ranges(ids: Seq<u32>) -> Seq<(u32, u32)>
    decreases ids.len(),
{
    if ids.len() == 0 {
        Seq::empty()
    } else {
        let r = id_ranges(ids.drop_last());
        let x = ids.last();
        if r.len() > 0 && r.last().1 as int + 1 == x as int {
            r.update(r.len() - 1, (r.last().0, x))
        } else {
            r.push((x, x))
        }
    }
}

/// The `(first, last)` fields of the disposition for a range: `last` is
/// left out when the range holds one id.
pub open spec fn range_fields(r: (u32, u32)) -> (u32, Option<u32>) {
    if r.0 == r.1 {
        (r.0, None)
    } else {
        (r.0, Some(r.1))
    }
}

/// Coalesces delivery ids into the `(first, last)` of one disposition for
/// each run of consecutive ids.
pub fn batch_ranges(ids: &Vec<u32>) -> (r: Vec<(u32, Option<u32>)>)
    ensures
        r@ == id_ranges(ids@).map_values(|x: (u32, u32)| range_fields(x)),
{
    let mut ranges: Vec<(u32, u32)> = Vec::new();
    let mut i: usize = 0;
    while i < ids.len()
        invariant
            0 <= i <= ids@.len(),
            ranges@ == id_ranges(ids@.take(i as int)),
        decreases ids.len() - i,
    {
        let x = ids[i];
        assert(ids@.take(i + 1).drop_last() =~= ids@.take(i as int));
        let k = ranges.len();
        if k > 0 && ranges[k - 1].1 as u64 + 1 == x as u64 {
            let lo = ranges[k - 1].0;
            ranges.set(k - 1, (lo, x));
        } else {
            ranges.push((x, x));
        }
        i += 1;
    }
    assert(ids@.take(i as int) =~= ids@);
    let mut out: Vec<(u32, Option<u32>)> = Vec::new();
    let mut j: usize = 0;
    while j < ranges.len()
        invariant
            0 <= j <= ranges@.len(),
            ranges@ == id_ranges(ids@),
            out@ == ranges@.take(j as int).map_values(|x: (u32, u32)| range_fields(x)),
        decreases ranges.len() - j,
    {
        let (lo, hi) = ranges[j];
        let last = if lo == hi {
            None
        } else {
            Some(hi)
        };
        out.push((lo, last));
        assert(ranges@.take(j + 1) =~= ranges@.take(j as int).push(ranges@[j as int]));
        assert(out@ =~= ranges@.take(j + 1).map_values(|x: (u32, u32)| range_fields(x)));
        j += 1;
    }
    assert(ranges@.take(j as int) =~= ranges@);
    out
}

/// The order delivery ids are batched in.
pub open spec fn id_leq() -> spec_fn(u32, u32) -> bool {
    |a: u32, b: u32| a <= b
}

/// The delivery ids in ascending order.
pub open spec fn sorted_ids(ids: Seq<u32>) -> Seq<u32> {
    ids.sort_by(id_leq())
}

/// Sorts delivery ids in ascending order.
pub fn sort_ids(ids: &Vec<u32>) -> (r: Vec<u32>)
    ensures
        r@ == sorted_ids(ids@),
{
    broadcast use vstd::seq_lib::group_to_multiset_ensures;

    let mut out: Vec<u32> = Vec::new();
    let mut i: usize = 0;
    while i < ids.len()
        invariant
            0 <= i <= ids@.len(),
            sorted_by(out@, id_leq()),
            out@.to_multiset() == ids@.take(i as int).to_multiset(),
        decreases ids.len() - i,
    {
        let x = ids[i];
        let mut p: usize = 0;
        while p < out.len() && out[p] <= x
            invariant
                0 <= p <= out@.len(),
                forall|k: int| 0 <= k < p ==> out@[k] <= x,
            decreases out.len() - p,
        {
            p += 1;
        }
        let ghost before = out@;
        out.insert(p, x);
        proof {
            assert(out@ == before.insert(p as int, x));
            vstd::seq_lib::to_multiset_insert(before, p as int, x);
            assert(ids@.take(i + 1) =~= ids@.take(i as int).push(x));
            vstd::seq_lib::to_multiset_build(ids@.take(i as int), x);
            assert(sorted_by(out@, id_leq())) by {
                assert forall|a: int, b: int| 0 <= a < b < out@.len() implies #[trigger] id_leq()(
                    out@[a],
                    out@[b],
                ) by {
                    if p < before.len() {
                        assert(before[p as int] > x);
                    }
                    if a < p && b > p {
                        assert(out@[a] <= x);
                        assert(out@[b] == before[b - 1]);
                        assert(id_leq()(before[p as int], before[b - 1]) || b - 1 == p);
                    }
                    if a == p && b > p {
                        assert(id_leq()(before[p as int], before[b - 1]) || b - 1 == p);
                    }
                    if a > p {
                        assert(id_leq()(before[a - 1], before[b - 1]));
                    }
                    if b < p {
                        assert(id_leq()(before[a], before[b]));
                    }
                    if a < p && b == p {
                        assert(out@[a] <= x);
                    }
                }
            }
        }
        i += 1;
    }
    proof {
        assert(ids@.take(i as int) =~= ids@);
        let leq = id_leq();
        assert(total_ordering(leq));
        ids@.lemma_sort_by_ensures(leq);
        vstd::seq_lib::lemma_sorted_unique(out@, ids@.sort_by(leq), leq);
    }
    out
}

proof fn lemma_id_ranges_last(ids: Seq<u32>)
    requires
        ids.len() > 0,
    ensures
        id_ranges(ids).len() > 0,
        id_ranges(ids).last().1 == ids.last(),
        id_ranges(ids).len() >= id_ranges(ids.drop_last()).len(),
{
}

/// A run of consecutive delivery ids is answered by one disposition, from
/// the first id to the last.
pub proof fn lemma_consecutive_ids_one_disposition(ids: Seq<u32>)
    requires
        ids.len() > 0,
        forall|i: int| 0 <= i < ids.len() ==> #[trigger] ids[i] as int == ids[0] as int + i,
    ensures
        id_ranges(ids) == seq![(ids[0], ids.last())],
    decreases ids.len(),
{
    if ids.len() > 1 {
        let p = ids.drop_last();
        assert forall|i: int| 0 <= i < p.len() implies #[trigger] p[i] as int == p[0] as int + i by {
            assert(p[i] == ids[i]);
        }
        lemma_consecutive_ids_one_disposition(p);
        assert(ids[ids.len() - 1] as int == ids[ids.len() - 2] as int + 1);
        assert(id_ranges(ids) =~= seq![(ids[0], ids.last())]);
    } else {
        assert(ids.drop_last() =~= Seq::<u32>::empty());
        assert(id_ranges(ids.drop_last()).len() == 0);
        assert(id_ranges(ids) =~= seq![(ids[0], ids.last())]);
    }
}

/// A gap between two neighbouring ids splits the batch into at least two
/// dispositions.
pub proof fn lemma_gap_splits_dispositions(ids: Seq<u32>, k: int)
    requires
        0 <= k,
        k + 1 < ids.len(),
        ids[k + 1] as int != ids[k] as int + 1,
    ensures
        id_ranges(ids).len() >= 2,
    decreases ids.len(),
{
    if ids.len() == k + 2 {
        let p = ids.drop_last();
        lemma_id_ranges_last(p);
    } else {
        let p = ids.drop_last();
        assert(p[k] == ids[k] && p[k + 1] == ids[k + 1]);
        lemma_gap_splits_dispositions(p, k);
        lemma_id_ranges_last(ids);
    }
}

/// An `attach` performative.
#[derive(Debug)]
pub struct Attach {
    pub name: String,
    pub handle: Handle,
    pub role: Role,
    pub snd_settle_mode: SenderSettleMode,
    pub rcv_settle_mode: ReceiverSettleMode,
    pub source: Option<Source>,
    pub target: Option<TargetArchetype>,
    pub unsettled: Option<Vec<(Vec<u8>, Option<DeliveryState>)>>,
    pub incomplete_unsettled: bool,
    pub initial_delivery_count: Option<SequenceNo>,
    pub max_message_size: Option<u64>,
}

/// A `disposition` performative.
#[derive(Debug)]
pub struct Disposition {
    pub role: Role,
    pub first: DeliveryNumber,
    pub last: Option<DeliveryNumber>,
    pub settled: bool,
    pub state: Option<DeliveryState>,
    pub batchable: bool,
}

/// The state a link moves to on the peer's `attach`, if that is allowed.
pub open spec fn attach_next_state(s: LinkState, incomplete_unsettled: bool) -> Option<LinkState> {
    match (s, incomplete_unsettled) {
        (LinkState::AttachSent, false) => Some(LinkState::Attached),
        (LinkState::IncompleteAttachSent, false) => Some(LinkState::IncompleteAttachExchanged),
        (LinkState::Unattached, false) => Some(LinkState::AttachReceived),
        (LinkState::Detached, false) => Some(LinkState::AttachReceived),
        (LinkState::AttachSent, true) => Some(LinkState::IncompleteAttachExchanged),
        (LinkState::IncompleteAttachSent, true) => Some(LinkState::IncompleteAttachExchanged),
        (LinkState::Unattached, true) => Some(LinkState::IncompleteAttachReceived),
        (LinkState::Detached, true) => Some(LinkState::IncompleteAttachReceived),
        _ => None,
    }
}

pub fn next_attach_state(s: LinkState, incomplete_unsettled: bool) -> (r: Option<LinkState>)
    ensures
        r == attach_next_state(s, incomplete_unsettled),
{
    match (s, incomplete_unsettled) {
        (LinkState::AttachSent, false) => Some(LinkState::Attached),
        (LinkState::IncompleteAttachSent, false) => Some(LinkState::IncompleteAttachExchanged),
        (LinkState::Unattached, false) => Some(LinkState::AttachReceived),
        (LinkState::Detached, false) => Some(LinkState::AttachReceived),
        (LinkState::AttachSent, true) => Some(LinkState::IncompleteAttachExchanged),
        (LinkState::IncompleteAttachSent, true) => Some(LinkState::IncompleteAttachExchanged),
        (LinkState::Unattached, true) => Some(LinkState::IncompleteAttachReceived),
        (LinkState::Detached, true) => Some(LinkState::IncompleteAttachReceived),
        _ => None,
    }
}

/// The peer's target is of a kind this end implements: a coordinator only
/// where this end stands for one.
pub open spec fn target_kind_ok(local: Option<TargetArchetype>, remote: TargetArchetype) -> bool {
    match local {
        Some(TargetArchetype::Coordinator(_)) => remote is Coordinator,
        _ => remote is Target,
    }
}

fn check_target_kind(local: &Option<TargetArchetype>, remote: &TargetArchetype) -> (r: bool)
    ensures
        r == target_kind_ok(*local, *remote),
{
    match local {
        Some(TargetArchetype::Coordinator(_)) => match remote {
            TargetArchetype::Coordinator(_) => true,
            TargetArchetype::Target(_) => false,
        },
        _ => match remote {
            TargetArchetype::Coordinator(_) => false,
            TargetArchetype::Target(_) => true,
        },
    }
}

/// What to do with one unsettled delivery when a link is re-attached.
#[derive(Clone, Copy, Debug, PartialEq, Eq, Structural)]
pub enum ResumingDelivery {
    /// Only the peer knows the delivery: send an aborted transfer.
    Abort,
    /// Only this end knows it: send it again from the start.
    Restart,
    /// Neither end reached a terminal state: resume from the received state.
    Resume,
    /// The receiver reached a terminal state: settle with it.
    SettleWithRemoteState,
    /// Only the sender reached a terminal state: send that state.
    SendLocalState,
}

/// Whether an optional state is a terminal one.
pub open spec fn opt_terminal(s: Option<DeliveryState>) -> bool {
    s is Some && s->0.is_terminal_spec()
}

/// The resumption rule for one tag held by this end, given whether and in
/// what kind of state the peer holds it.
pub open spec fn resume_one(local_terminal: bool, remote_terminal: Option<bool>) -> ResumingDelivery {
    match remote_terminal {
        None => ResumingDelivery::Restart,
        Some(rt) => if rt {
            ResumingDelivery::SettleWithRemoteState
        } else if local_terminal {
            ResumingDelivery::SendLocalState
        } else {
            ResumingDelivery::Resume
        },
    }
}

/// Whether the peer's unsettled map holds a tag, and then whether its state
/// there is terminal (a later entry hides an earlier one).
pub open spec fn remote_lookup(remote: Seq<(Vec<u8>, Option<DeliveryState>)>, tag: Seq<u8>) -> Option<
    bool,
>
    decreases remote.len(),
{
    if remote.len() == 0 {
        None
    } else if remote.last().0@ == tag {
        Some(opt_terminal(remote.last().1))
    } else {
        remote_lookup(remote.drop_last(), tag)
    }
}

/// The tags only the peer holds, each to be aborted, in the peer's order.
pub open spec fn remote_only(
    remote: Seq<(Vec<u8>, Option<DeliveryState>)>,
    local: Seq<UnsettledMessage>,
) -> Seq<(Seq<u8>, ResumingDelivery)>
    decreases remote.len(),
{
    if remote.len() == 0 {
        Seq::empty()
    } else {
        let prev = remote_only(remote.drop_last(), local);
        if unsettled_map(local).contains_key(remote.last().0@) {
            prev
        } else {
            prev.push((remote.last().0@, ResumingDelivery::Abort))
        }
    }
}

/// The resumption actions: one per local entry, in order, then an abort
/// for each tag that only the peer holds.
pub open spec fn resume_actions(
    local: Seq<UnsettledMessage>,
    remote: Seq<(Vec<u8>, Option<DeliveryState>)>,
) -> Seq<(Seq<u8>, ResumingDelivery)> {
    local.map_values(
        |e: UnsettledMessage| (e.tag@, resume_one(opt_terminal(e.state), remote_lookup(remote, e.tag@))),
    ) + remote_only(remote, local)
}

/// The view of a list of actions.
pub open spec fn actions_view(v: Seq<(Vec<u8>, ResumingDelivery)>) -> Seq<(Seq<u8>, ResumingDelivery)> {
    v.map_values(|p: (Vec<u8>, ResumingDelivery)| (p.0@, p.1))
}

fn lookup_remote(remote: &Vec<(Vec<u8>, Option<DeliveryState>)>, tag: &Vec<u8>) -> (r: Option<bool>)
    ensures
        r == remote_lookup(remote@, tag@),
{
    let mut found: Option<bool> = None;
    let mut i: usize = 0;
    while i < remote.len()
        invariant
            0 <= i <= remote@.len(),
            found == remote_lookup(remote@.take(i as int), tag@),
        decreases remote.len() - i,
    {
        assert(remote@.take(i + 1).drop_last() =~= remote@.take(i as int));
        if bytes_eq(&remote[i].0, tag) {
            let t = match &remote[i].1 {
                Some(st) => st.is_terminal(),
                None => false,
            };
            found = Some(t);
        }
        i += 1;
    }
    assert(remote@.take(i as int) =~= remote@);
    found
}

fn has_unsettled(local: &Vec<UnsettledMessage>, tag: &Vec<u8>) -> (r: bool)
    ensures
        r == unsettled_map(local@).contains_key(tag@),
{
    let mut found = false;
    let mut i: usize = 0;
    while i < local.len()
        invariant
            0 <= i <= local@.len(),
            found == unsettled_map(local@.take(i as int)).contains_key(tag@),
        decreases local.len() - i,
    {
        assert(local@.take(i + 1).drop_last() =~= local@.take(i as int));
        if bytes_eq(&local[i].tag, tag) {
            found = true;
        }
        i += 1;
    }
    assert(local@.take(i as int) =~= local@);
    found
}

/// Runs the resumption rule over both unsettled maps.
pub fn resume_unsettled(
    local: &Vec<UnsettledMessage>,
    remote: &Vec<(Vec<u8>, Option<DeliveryState>)>,
) -> (r: Vec<(Vec<u8>, ResumingDelivery)>)
    ensures
        actions_view(r@) == resume_actions(local@, remote@),
{
    let mut out: Vec<(Vec<u8>, ResumingDelivery)> = Vec::new();
    let mut i: usize = 0;
    while i < local.len()
        invariant
            0 <= i <= local@.len(),
            actions_view(out@) == resume_actions(local@.take(i as int), remote@).take(i as int),
            actions_view(out@) == local@.take(i as int).map_values(
                |e: UnsettledMessage|
                    (e.tag@, resume_one(opt_terminal(e.state), remote_lookup(remote@, e.tag@))),
            ),
        decreases local.len() - i,
    {
        let e = &local[i];
        let rt = lookup_remote(remote, &e.tag);
        let local_terminal = match &e.state {
            Some(st) => st.is_terminal(),
            None => false,
        };
        let action = match rt {
            None => ResumingDelivery::Restart,
            Some(t) => if t {
                ResumingDelivery::SettleWithRemoteState
            } else if local_terminal {
                ResumingDelivery::SendLocalState
            } else {
                ResumingDelivery::Resume
            },
        };
        let ghost before = out@;
        out.push((e.tag.clone(), action));
        proof {
            assert(local@.take(i + 1) =~= local@.take(i as int).push(local@[i as int]));
            assert(actions_view(out@) =~= actions_view(before).push((e.tag@, action)));
            assert(actions_view(out@) =~= local@.take(i + 1).map_values(
                |e: UnsettledMessage|
                    (e.tag@, resume_one(opt_terminal(e.state), remote_lookup(remote@, e.tag@))),
            ));
            assert(actions_view(out@) =~= resume_actions(local@.take(i + 1), remote@).take(i + 1));
        }
        i += 1;
    }
    assert(local@.take(i as int) =~= local@);
    let ghost prefix = out@;
    let mut j: usize = 0;
    while j < remote.len()
        invariant
            i == local@.len(),
            0 <= j <= remote@.len(),
            actions_view(prefix) == local@.map_values(
                |e: UnsettledMessage|
                    (e.tag@, resume_one(opt_terminal(e.state), remote_lookup(remote@, e.tag@))),
            ),
            actions_view(out@) == actions_view(prefix) + remote_only(remote@.take(j as int), local@),
        decreases remote.len() - j,
    {
        assert(remote@.take(j + 1).drop_last() =~= remote@.take(j as int));
        let ghost before = out@;
        if !has_unsettled(local, &remote[j].0) {
            out.push((remote[j].0.clone(), ResumingDelivery::Abort));
            assert(actions_view(out@) =~= actions_view(before).push(
                (remote@[j as int].0@, ResumingDelivery::Abort),
            ));
        }
        assert(actions_view(out@) =~= actions_view(prefix) + remote_only(
            remote@.take(j + 1),
            local@,
        ));
        j += 1;
    }
    assert(remote@.take(j as int) =~= remote@);
    out
}

/// One delivery to resume after re-attach: its tag, what to do, and the
/// local entry (payload and state) when this end held it.
#[derive(Debug)]
pub struct ResumeEntry {
    pub delivery_tag: Vec<u8>,
    pub action: ResumingDelivery,
    pub local: Option<UnsettledMessage>,
}

/// The tags and actions of resume entries.
pub open spec fn entries_view(v: Seq<ResumeEntry>) -> Seq<(Seq<u8>, ResumingDelivery)> {
    v.map_values(|e: ResumeEntry| (e.delivery_tag@, e.action))
}

/// The resume entries for two unsettled maps: the actions of the
/// resumption rule, each local entry carried with its own action, none with
/// an abort.
pub open spec fn entries_spec(
    v: Seq<ResumeEntry>,
    local: Seq<UnsettledMessage>,
    remote: Seq<(Vec<u8>, Option<DeliveryState>)>,
) -> bool {
    &&& entries_view(v) == resume_actions(local, remote)
    &&& forall|i: int| 0 <= i < local.len() ==> #[trigger] v[i].local == Some(local[i])
    &&& forall|i: int| local.len() <= i < v.len() ==> (#[trigger] v[i]).local is None
}

/// Runs the resumption rule and hands each local entry over with its action.
pub fn take_resume_entries(
    local: Vec<UnsettledMessage>,
    remote: &Vec<(Vec<u8>, Option<DeliveryState>)>,
) -> (r: Vec<ResumeEntry>)
    ensures
        entries_spec(r@, local@, remote@),
{
    let mut actions = resume_unsettled(&local, remote);
    let ghost all = actions@;
    let ghost loc = local@;
    let mut local = local;
    let n = actions.len();
    let mut out: Vec<ResumeEntry> = Vec::new();
    let mut i: usize = 0;
    proof {
        assert(actions_view(all).len() == resume_actions(loc, remote@).len());
        assert(resume_actions(loc, remote@).len() >= loc.len());
    }
    while i < n
        invariant
            n == all.len(),
            n >= loc.len(),
            0 <= i <= n,
            actions@ == all.skip(i as int),
            i <= loc.len() ==> local@ == loc.skip(i as int),
            i >= loc.len() ==> local@.len() == 0,
            actions_view(all) == resume_actions(loc, remote@),
            out@.len() == i,
            forall|k: int| 0 <= k < i ==> (#[trigger] out@[k]).delivery_tag@ == all[k].0@ && out@[k].action == all[k].1,
            forall|k: int| 0 <= k < i && k < loc.len() ==> #[trigger] out@[k].local == Some(loc[k]),
            forall|k: int| loc.len() <= k < i ==> (#[trigger] out@[k]).local is None,
        decreases n - i,
    {
        let (tag, action) = actions.remove(0);
        assert(actions@ =~= all.skip(i + 1));
        let entry_local = if local.len() > 0 {
            let e = local.remove(0);
            assert(e == loc[i as int]);
            assert(local@ =~= loc.skip(i + 1));
            Some(e)
        } else {
            None
        };
        out.push(ResumeEntry { delivery_tag: tag, action, local: entry_local });
        i += 1;
    }
    proof {
        assert(entries_view(out@) =~= actions_view(all));
    }
    out
}

/// How the unsettled maps stood after an attach exchange.
#[derive(Debug)]
pub enum SenderAttachExchange {
    /// Nothing was left unsettled on either side.
    Complete,
    /// A side marked its map incomplete: resume these and exchange again.
    IncompleteUnsettled(Vec<ResumeEntry>),
    /// Resume these deliveries.
    Resume(Vec<ResumeEntry>),
}

/// Why the sender refused the peer's `attach`.
#[derive(Clone, Copy, Debug, PartialEq, Eq, Structural)]
pub enum SenderAttachError {
    IllegalState,
    IncomingSourceIsNone,
    IncomingTargetIsNone,
    SourceMismatch,
    CoordinatorIsNotImplemented,
    RcvSettleModeNotSupported,
    SndSettleModeNotSupported,
}

/// The sending end of a link.
#[derive(Debug)]
pub struct SenderLink {
    pub name: String,
    pub local_state: LinkState,
    pub output_handle: Option<Handle>,
    pub input_handle: Option<Handle>,
    pub snd_settle_mode: SenderSettleMode,
    pub rcv_settle_mode: ReceiverSettleMode,
    pub source: Option<Source>,
    pub target: Option<TargetArchetype>,
    pub max_message_size: u64,
    pub flow_state: LinkFlowState,
    pub unsettled: Vec<UnsettledMessage>,
}

/// Two sender links agree on everything but their unsettled map.
pub open spec fn same_but_unsettled(a: SenderLink, b: SenderLink) -> bool {
    &&& a.name == b.name
    &&& a.local_state == b.local_state
    &&& a.output_handle == b.output_handle
    &&& a.input_handle == b.input_handle
    &&& a.snd_settle_mode == b.snd_settle_mode
    &&& a.rcv_settle_mode == b.rcv_settle_mode
    &&& a.source == b.source
    &&& a.target == b.target
    &&& a.max_message_size == b.max_message_size
    &&& a.flow_state == b.flow_state
}

/// Which error the sender gives for the peer's `attach`, if any.
pub open spec fn sender_attach_error(link: SenderLink, remote: Attach) -> Option<SenderAttachError> {
    if attach_next_state(link.local_state, remote.incomplete_unsettled) is None {
        Some(SenderAttachError::IllegalState)
    } else if remote.source is None {
        Some(SenderAttachError::IncomingSourceIsNone)
    } else if link.source is Some && !source_matches(link.source->0, remote.source->0) {
        Some(SenderAttachError::SourceMismatch)
    } else if remote.target is None {
        Some(SenderAttachError::IncomingTargetIsNone)
    } else if !target_kind_ok(link.target, remote.target->0) {
        Some(SenderAttachError::CoordinatorIsNotImplemented)
    } else if link.rcv_settle_mode != remote.rcv_settle_mode {
        Some(SenderAttachError::RcvSettleModeNotSupported)
    } else if link.snd_settle_mode != remote.snd_settle_mode {
        Some(SenderAttachError::SndSettleModeNotSupported)
    } else {
        None
    }
}

/// The deliveries put into the unsettled map by one send: the map gains the
/// tag with no state and the payload, and keeps the rest.
pub open spec fn unsettled_after_send(
    before: Seq<UnsettledMessage>,
    after: Seq<UnsettledMessage>,
    tag: Seq<u8>,
    payload: Seq<u8>,
) -> bool {
    &&& unsettled_map(after).contains_key(tag)
    &&& unsettled_map(after)[tag].state is None
    &&& unsettled_map(after)[tag].payload@ == payload
    &&& unsettled_map(after).remove(tag) == unsettled_map(before).remove(tag)
}

impl SenderLink {
    /// A new sender, not attached yet, with no credit and nothing unsettled.
    pub fn new(
        name: String,
        output_handle: Option<Handle>,
        snd_settle_mode: SenderSettleMode,
        rcv_settle_mode: ReceiverSettleMode,
        source: Option<Source>,
        target: Option<TargetArchetype>,
        max_message_size: u64,
        initial_delivery_count: SequenceNo,
    ) -> (r: SenderLink)
        ensures
            r.name == name,
            r.local_state == LinkState::Unattached,
            r.output_handle == output_handle,
            r.input_handle is None,
            r.snd_settle_mode == snd_settle_mode,
            r.rcv_settle_mode == rcv_settle_mode,
            r.source == source,
            r.target == target,
            r.max_message_size == max_message_size,
            r.flow_state == LinkFlowState::new_spec(initial_delivery_count),
            r.unsettled@.len() == 0,
    {
        SenderLink {
            name,
            local_state: LinkState::Unattached,
            output_handle,
            input_handle: None,
            snd_settle_mode,
            rcv_settle_mode,
            source,
            target,
            max_message_size,
            flow_state: LinkFlowState::new(initial_delivery_count),
            unsettled: Vec::new(),
        }
    }

    /// Updates the delivery count and availability where given, and makes
    /// the `flow` that announces the sender's flow state.
    pub fn send_flow(&mut self, delivery_count: Option<SequenceNo>, available: Option<u32>, echo: bool) -> (r:
        Result<LinkFlow, FlowError>)
        ensures
            old(self).output_handle is None ==> r == Err::<LinkFlow, FlowError>(
                FlowError::IllegalState,
            ) && final(self).flow_state == old(self).flow_state,
            old(self).output_handle is Some ==> {
                let fs = final(self).flow_state;
                &&& fs.delivery_count == match delivery_count {
                    Some(c) => c,
                    None => old(self).flow_state.delivery_count,
                }
                &&& fs.available == match available {
                    Some(a) => a,
                    None => old(self).flow_state.available,
                }
                &&& fs.link_credit == old(self).flow_state.link_credit
                &&& fs.drain == old(self).flow_state.drain
                &&& fs.initial_delivery_count == old(self).flow_state.initial_delivery_count
                &&& r == Ok::<LinkFlow, FlowError>(
                    LinkFlow {
                        handle: old(self).output_handle->0,
                        delivery_count: Some(fs.delivery_count),
                        link_credit: Some(fs.link_credit),
                        available: Some(fs.available),
                        drain: fs.drain,
                        echo,
                    },
                )
            },
            same_but_flow(*old(self), *final(self)),
    {
        let handle = match self.output_handle {
            Some(h) => h,
            None => return Err(FlowError::IllegalState),
        };
        if let Some(c) = delivery_count {
            self.flow_state.delivery_count = c;
        }
        if let Some(a) = available {
            self.flow_state.available = a;
        }
        Ok(
            LinkFlow {
                handle,
                delivery_count: Some(self.flow_state.delivery_count),
                link_credit: Some(self.flow_state.link_credit),
                available: Some(self.flow_state.available),
                drain: self.flow_state.drain,
                echo,
            },
        )
    }

    fn emit_delivery(
        &mut self,
        handle: Handle,
        tag: Vec<u8>,
        message_format: Option<u32>,
        settled: bool,
        state: Option<DeliveryState>,
        batchable: bool,
        payload: &Vec<u8>,
    ) -> (r: (Settlement, Vec<TransferFrame>))
        ensures
            is_delivery_split(
                r.1@,
                handle,
                tag@,
                message_format,
                settled,
                payload@,
                old(self).max_message_size,
            ),
            settled ==> r.0 is Settled && r.0->Settled_0@ == tag@ && final(self).unsettled@
                == old(self).unsettled@,
            !settled ==> r.0 is Unsettled && r.0->Unsettled_0@ == tag@ && unsettled_after_send(
                old(self).unsettled@,
                final(self).unsettled@,
                tag@,
                payload@,
            ),
            same_but_unsettled(*old(self), *final(self)),
    {
        let frames = split_into_transfers(
            handle,
            &tag,
            message_format,
            settled,
            state,
            batchable,
            payload,
            self.max_message_size,
        );
        if settled {
            (Settlement::Settled(tag), frames)
        } else {
            let msg = UnsettledMessage { tag: tag.clone(), state: None, payload: copy_range(payload, 0, payload.len()) };
            proof {
                assert(payload@.subrange(0, payload@.len() as int) =~= payload@);
            }
            insert_unsettled(&mut self.unsettled, msg);
            proof {
                assert(unsettled_map(self.unsettled@).remove(tag@) =~= unsettled_map(
                    old(self).unsettled@,
                ).remove(tag@));
            }
            (Settlement::Unsettled(tag), frames)
        }
    }

    /// Sends a delivery whose first `transfer` the caller made: the tag must
    /// be set and the link attached. Settled when the transfer says so, else
    /// as the sender's settle mode says.
    pub fn send_payload_with_transfer(&mut self, transfer: Transfer, payload: &Vec<u8>) -> (r: Result<
        (Settlement, Vec<TransferFrame>),
        LinkStateError,
    >)
        ensures
            (transfer.delivery_tag is None || old(self).input_handle is None) ==> r == Err::<
                (Settlement, Vec<TransferFrame>),
                LinkStateError,
            >(LinkStateError::IllegalState) && final(self).unsettled@ == old(self).unsettled@,
            (transfer.delivery_tag is Some && old(self).input_handle is Some) ==> {
                let settled = match transfer.settled {
                    Some(b) => b,
                    None => old(self).snd_settle_mode == SenderSettleMode::Settled,
                };
                let tag = transfer.delivery_tag->0@;
                &&& r is Ok
                &&& is_delivery_split(
                    r->Ok_0.1@,
                    transfer.handle,
                    tag,
                    transfer.message_format,
                    settled,
                    payload@,
                    old(self).max_message_size,
                )
                &&& settled ==> r->Ok_0.0 is Settled && r->Ok_0.0->Settled_0@ == tag
                    && final(self).unsettled@ == old(self).unsettled@
                &&& !settled ==> r->Ok_0.0 is Unsettled && r->Ok_0.0->Unsettled_0@ == tag
                    && unsettled_after_send(old(self).unsettled@, final(self).unsettled@, tag, payload@)
            },
            same_but_unsettled(*old(self), *final(self)),
    {
        let settled = match transfer.settled {
            Some(b) => b,
            None => self.snd_settle_mode == SenderSettleMode::Settled,
        };
        if self.input_handle.is_none() {
            return Err(LinkStateError::IllegalState);
        }
        let Transfer { handle, delivery_tag, message_format, state, batchable, .. } = transfer;
        let tag = match delivery_tag {
            Some(t) => t,
            None => return Err(LinkStateError::IllegalState),
        };
        Ok(self.emit_delivery(handle, tag, message_format, settled, state, batchable, payload))
    }

    /// Sends a new delivery: takes one unit of credit, tags the delivery with
    /// the delivery count it was sent at, and settles it as the settle mode
    /// says (`Mixed`: as requested, unsettled by default).
    pub fn send_payload(
        &mut self,
        payload: &Vec<u8>,
        message_format: u32,
        settled: Option<bool>,
        state: Option<DeliveryState>,
        batchable: bool,
    ) -> (r: Result<(Settlement, Vec<TransferFrame>), LinkStateError>)
        ensures
            (old(self).output_handle is None || old(self).input_handle is None) ==> r == Err::<
                (Settlement, Vec<TransferFrame>),
                LinkStateError,
            >(LinkStateError::IllegalState) && *final(self) == *old(self),
            (old(self).output_handle is Some && old(self).input_handle is Some
                && old(self).flow_state.link_credit == 0) ==> r == Err::<
                (Settlement, Vec<TransferFrame>),
                LinkStateError,
            >(LinkStateError::InsufficientCredit) && *final(self) == *old(self),
            (old(self).output_handle is Some && old(self).input_handle is Some
                && old(self).flow_state.link_credit > 0) ==> {
                let settled_now = settled_for(old(self).snd_settle_mode, settled);
                let tag = tag_bytes(old(self).flow_state.delivery_count as nat);
                &&& r is Ok
                &&& final(self).flow_state.delivery_count == seq_add(
                    old(self).flow_state.delivery_count,
                    1,
                )
                &&& final(self).flow_state.link_credit == old(self).flow_state.link_credit - 1
                &&& is_delivery_split(
                    r->Ok_0.1@,
                    old(self).output_handle->0,
                    tag,
                    Some(message_format),
                    settled_now,
                    payload@,
                    old(self).max_message_size,
                )
                &&& settled_now ==> r->Ok_0.0 is Settled && r->Ok_0.0->Settled_0@ == tag
                    && final(self).unsettled@ == old(self).unsettled@
                &&& !settled_now ==> r->Ok_0.0 is Unsettled && r->Ok_0.0->Unsettled_0@ == tag
                    && unsettled_after_send(old(self).unsettled@, final(self).unsettled@, tag, payload@)
            },
    {
        let handle = match self.output_handle {
            Some(h) => h,
            None => return Err(LinkStateError::IllegalState),
        };
        if self.input_handle.is_none() {
            return Err(LinkStateError::IllegalState);
        }
        let count = match self.flow_state.try_consume(1) {
            Ok(c) => c,
            Err(_) => return Err(LinkStateError::InsufficientCredit),
        };
        let tag = delivery_tag_of(count);
        let settled_now = match self.snd_settle_mode {
            SenderSettleMode::Settled => true,
            SenderSettleMode::Unsettled => false,
            SenderSettleMode::Mixed => match settled {
                Some(b) => b,
                None => false,
            },
        };
        Ok(self.emit_delivery(handle, tag, Some(message_format), settled_now, state, batchable, payload))
    }
}

/// Two sender links agree on everything but their flow state.
pub open spec fn same_but_flow(a: SenderLink, b: SenderLink) -> bool {
    &&& a.name == b.name
    &&& a.local_state == b.local_state
    &&& a.output_handle == b.output_handle
    &&& a.input_handle == b.input_handle
    &&& a.snd_settle_mode == b.snd_settle_mode
    &&& a.rcv_settle_mode == b.rcv_settle_mode
    &&& a.source == b.source
    &&& a.target == b.target
    &&& a.max_message_size == b.max_message_size
    &&& a.unsettled == b.unsettled
}

impl SenderLink {
    /// Settles a delivery, or records a state for it, and makes the
    /// `disposition` that tells the peer; nothing is sent on a link whose
    /// deliveries are all settled on sending.
    pub fn dispose(
        &mut self,
        delivery_id: DeliveryNumber,
        delivery_tag: &Vec<u8>,
        settled: bool,
        state: DeliveryState,
        batchable: bool,
    ) -> (r: Option<Disposition>)
        ensures
            old(self).snd_settle_mode == SenderSettleMode::Settled ==> r is None && final(self).unsettled
                == old(self).unsettled,
            old(self).snd_settle_mode != SenderSettleMode::Settled ==> {
                let d = r->0;
                &&& r is Some
                &&& d.role == Role::Sender
                &&& d.first == delivery_id
                &&& d.last is None
                &&& d.settled == settled
                &&& d.batchable == batchable
                &&& d.state is Some && same_state(d.state->0, state)
                &&& settled ==> unsettled_map(final(self).unsettled@) == unsettled_map(
                    old(self).unsettled@,
                ).remove(delivery_tag@)
                &&& !settled ==> unsettled_state_set(
                    old(self).unsettled@,
                    final(self).unsettled@,
                    delivery_tag@,
                    state,
                )
            },
            same_but_unsettled(*old(self), *final(self)),
    {
        if self.snd_settle_mode == SenderSettleMode::Settled {
            return None;
        }
        let frame_state = state.copy();
        if settled {
            let _ = remove_unsettled(&mut self.unsettled, delivery_tag);
        } else {
            let st = state.copy();
            set_unsettled_state(&mut self.unsettled, delivery_tag, st);
        }
        Some(
            Disposition {
                role: Role::Sender,
                first: delivery_id,
                last: None,
                settled,
                state: Some(frame_state),
                batchable,
            },
        )
    }

    /// Settles, or records a state for, a batch of deliveries, and makes one
    /// `disposition` for each run of consecutive delivery ids, in ascending
    /// order.
    pub fn batch_dispose(
        &mut self,
        ids_and_tags: &Vec<(DeliveryNumber, Vec<u8>)>,
        settled: bool,
        state: DeliveryState,
        batchable: bool,
    ) -> (r: Vec<Disposition>)
        ensures
            old(self).snd_settle_mode == SenderSettleMode::Settled ==> r@.len() == 0
                && final(self).unsettled == old(self).unsettled,
            old(self).snd_settle_mode != SenderSettleMode::Settled ==> {
                let ranges = id_ranges(sorted_ids(ids_and_tags@.map_values(|p: (u32, Vec<u8>)| p.0)));
                &&& r@.len() == ranges.len()
                &&& forall|i: int|
                    0 <= i < r@.len() ==> {
                        let d = #[trigger] r@[i];
                        &&& (d.first, d.last) == range_fields(ranges[i])
                        &&& d.role == Role::Sender
                        &&& d.settled == settled
                        &&& d.batchable == batchable
                        &&& d.state is Some && same_state(d.state->0, state)
                    }
                &&& settled ==> forall|t: Seq<u8>|
                    (exists|k: int| 0 <= k < ids_and_tags@.len() && ids_and_tags@[k].1@ == t)
                        ==> !#[trigger] unsettled_map(final(self).unsettled@).contains_key(t)
            },
            same_but_unsettled(*old(self), *final(self)),
    {
        if self.snd_settle_mode == SenderSettleMode::Settled {
            return Vec::new();
        }
        let mut ids: Vec<u32> = Vec::new();
        let mut i: usize = 0;
        while i < ids_and_tags.len()
            invariant
                0 <= i <= ids_and_tags@.len(),
                ids@ == ids_and_tags@.take(i as int).map_values(|p: (u32, Vec<u8>)| p.0),
                same_but_unsettled(*old(self), *self),
                settled ==> forall|t: Seq<u8>|
                    (exists|k: int| 0 <= k < i && ids_and_tags@[k].1@ == t)
                        ==> !#[trigger] unsettled_map(self.unsettled@).contains_key(t),
            decreases ids_and_tags.len() - i,
        {
            let (id, tag) = (ids_and_tags[i].0, &ids_and_tags[i].1);
            let ghost before = unsettled_map(self.unsettled@);
            if settled {
                let _ = remove_unsettled(&mut self.unsettled, tag);
                assert forall|t: Seq<u8>|
                    (exists|k: int| 0 <= k < i + 1 && ids_and_tags@[k].1@ == t)
                        implies !#[trigger] unsettled_map(self.unsettled@).contains_key(t) by {
                    let k = choose|k: int| 0 <= k < i + 1 && ids_and_tags@[k].1@ == t;
                    if k < i {
                        assert(!before.contains_key(t));
                    }
                }
            } else {
                let st = state.copy();
                set_unsettled_state(&mut self.unsettled, tag, st);
            }
            ids.push(id);
            assert(ids_and_tags@.take(i + 1) =~= ids_and_tags@.take(i as int).push(ids_and_tags@[i as int]));
            assert(ids@ =~= ids_and_tags@.take(i + 1).map_values(|p: (u32, Vec<u8>)| p.0));
            i += 1;
        }
        assert(ids_and_tags@.take(i as int) =~= ids_and_tags@);
        let sorted = sort_ids(&ids);
        let ranges = batch_ranges(&sorted);
        let ghost spec_ranges = id_ranges(sorted_ids(ids_and_tags@.map_values(|p: (u32, Vec<u8>)| p.0)));
        let mut out: Vec<Disposition> = Vec::new();
        let mut j: usize = 0;
        while j < ranges.len()
            invariant
                0 <= j <= ranges@.len(),
                ranges@ == spec_ranges.map_values(|x: (u32, u32)| range_fields(x)),
                out@.len() == j,
                forall|k: int|
                    0 <= k < j ==> {
                        let d = #[trigger] out@[k];
                        &&& (d.first, d.last) == range_fields(spec_ranges[k])
                        &&& d.role == Role::Sender
                        &&& d.settled == settled
                        &&& d.batchable == batchable
                        &&& d.state is Some && same_state(d.state->0, state)
                    },
            decreases ranges.len() - j,
        {
            let (first, last) = ranges[j];
            out.push(
                Disposition {
                    role: Role::Sender,
                    first,
                    last,
                    settled,
                    state: Some(state.copy()),
                    batchable,
                },
            );
            j += 1;
        }
        out
    }
}

/// The unsettled map after a state was recorded for a tag: the same keys,
/// the entry of the tag (if any) with that state, the rest unchanged.
pub open spec fn unsettled_state_set(
    before: Seq<UnsettledMessage>,
    after: Seq<UnsettledMessage>,
    tag: Seq<u8>,
    state: DeliveryState,
) -> bool {
    &&& unsettled_map(after).dom() == unsettled_map(before).dom()
    &&& unsettled_map(after).remove(tag) == unsettled_map(before).remove(tag)
    &&& unsettled_map(before).contains_key(tag) ==> {
        let e = unsettled_map(after)[tag];
        &&& e.payload == unsettled_map(before)[tag].payload
        &&& e.state is Some && same_state(e.state->0, state)
    }
}

/// The result of comparing unsettled maps after an attach exchange.
pub open spec fn attach_exchange_spec(
    x: SenderAttachExchange,
    local: Seq<UnsettledMessage>,
    remote: Option<Vec<(Vec<u8>, Option<DeliveryState>)>>,
    state: LinkState,
) -> bool {
    let remote_seq = match remote {
        Some(v) => v@,
        None => Seq::empty(),
    };
    if local.len() == 0 && remote_seq.len() == 0 {
        x is Complete
    } else if state == LinkState::IncompleteAttachReceived || state
        == LinkState::IncompleteAttachSent || state == LinkState::IncompleteAttachExchanged {
        x is IncompleteUnsettled && entries_spec(x->IncompleteUnsettled_0@, local, remote_seq)
    } else {
        x is Resume && entries_spec(x->Resume_0@, local, remote_seq)
    }
}

impl SenderLink {
    /// Takes this end's unsettled map out, compares it with the one the peer
    /// sent in its `attach`, and says how to resume each delivery; the
    /// entries carry the local payloads and states. The map is empty after.
    pub fn handle_unsettled_in_attach(
        &mut self,
        remote_unsettled: &Option<Vec<(Vec<u8>, Option<DeliveryState>)>>,
    ) -> (r: SenderAttachExchange)
        ensures
            attach_exchange_spec(r, old(self).unsettled@, *remote_unsettled, old(self).local_state),
            final(self).unsettled@.len() == 0,
            same_but_unsettled(*old(self), *final(self)),
    {
        let empty: Vec<(Vec<u8>, Option<DeliveryState>)> = Vec::new();
        let remote = match remote_unsettled {
            Some(v) => v,
            None => &empty,
        };
        let mut local: Vec<UnsettledMessage> = Vec::new();
        std::mem::swap(&mut self.unsettled, &mut local);
        if local.len() == 0 && remote.len() == 0 {
            return SenderAttachExchange::Complete;
        }
        let v = take_resume_entries(local, remote);
        match self.local_state {
            LinkState::IncompleteAttachReceived
            | LinkState::IncompleteAttachSent
            | LinkState::IncompleteAttachExchanged => SenderAttachExchange::IncompleteUnsettled(v),
            _ => SenderAttachExchange::Resume(v),
        }
    }

    /// Takes in the peer's `attach`. The sender holds the authoritative
    /// source: the peer's must match it. The target comes from the receiver,
    /// and must be of a kind this end implements. Settle modes must agree; the
    /// maximum message size becomes the smaller non-zero one. Then the
    /// unsettled map is taken out and compared with the peer's (see
    /// `handle_unsettled_in_attach`). On an error nothing changes.
    pub fn on_incoming_attach(&mut self, remote_attach: Attach) -> (r: Result<
        SenderAttachExchange,
        SenderAttachError,
    >)
        ensures
            sender_attach_error(*old(self), remote_attach) is Some ==> r == Err::<
                SenderAttachExchange,
                SenderAttachError,
            >(sender_attach_error(*old(self), remote_attach)->0) && *final(self) == *old(self),
            sender_attach_error(*old(self), remote_attach) is None ==> {
                &&& r is Ok
                &&& final(self).local_state == attach_next_state(
                    old(self).local_state,
                    remote_attach.incomplete_unsettled,
                )->0
                &&& final(self).input_handle == Some(remote_attach.handle)
                &&& final(self).source == old(self).source
                &&& final(self).target == remote_attach.target
                &&& final(self).max_message_size == max_message_size_spec(
                    old(self).max_message_size,
                    match remote_attach.max_message_size {
                        Some(m) => m,
                        None => 0,
                    },
                )
                &&& final(self).name == old(self).name
                &&& final(self).output_handle == old(self).output_handle
                &&& final(self).snd_settle_mode == old(self).snd_settle_mode
                &&& final(self).rcv_settle_mode == old(self).rcv_settle_mode
                &&& final(self).flow_state == old(self).flow_state
                &&& final(self).unsettled@.len() == 0
                &&& attach_exchange_spec(
                    r->Ok_0,
                    old(self).unsettled@,
                    remote_attach.unsettled,
                    final(self).local_state,
                )
            },
    {
        let next = match next_attach_state(self.local_state, remote_attach.incomplete_unsettled) {
            Some(s) => s,
            None => return Err(SenderAttachError::IllegalState),
        };
        match &remote_attach.source {
            None => return Err(SenderAttachError::IncomingSourceIsNone),
            Some(remote_source) => match &self.source {
                Some(local_source) => {
                    if !local_source.matches(remote_source) {
                        return Err(SenderAttachError::SourceMismatch);
                    }
                },
                None => {},
            },
        }
        match &remote_attach.target {
            None => return Err(SenderAttachError::IncomingTargetIsNone),
            Some(t) => {
                if !check_target_kind(&self.target, t) {
                    return Err(SenderAttachError::CoordinatorIsNotImplemented);
                }
            },
        }
        if self.rcv_settle_mode != remote_attach.rcv_settle_mode {
            return Err(SenderAttachError::RcvSettleModeNotSupported);
        }
        if self.snd_settle_mode != remote_attach.snd_settle_mode {
            return Err(SenderAttachError::SndSettleModeNotSupported);
        }
        let Attach { handle, target, unsettled, max_message_size, .. } = remote_attach;
        self.local_state = next;
        self.input_handle = Some(handle);
        self.target = target;
        let remote_max = match max_message_size {
            Some(m) => m,
            None => 0,
        };
        self.max_message_size = get_max_message_size(self.max_message_size, remote_max);
        Ok(self.handle_unsettled_in_attach(&unsettled))
    }
}

/// Why the receiver refused the peer's `attach`.
#[derive(Clone, Copy, Debug, PartialEq, Eq, Structural)]
pub enum ReceiverAttachError {
    IllegalState,
    IncomingSourceIsNone,
    IncomingTargetIsNone,
    TargetMismatch,
    CoordinatorIsNotImplemented,
    RcvSettleModeNotSupported,
    SndSettleModeNotSupported,
    InitialDeliveryCountIsNone,
}

/// Why an incoming transfer was refused.
#[derive(Clone, Copy, Debug, PartialEq, Eq, Structural)]
pub enum ReceiverTransferError {
    /// The first transfer of a delivery did not name its tag.
    DeliveryTagIsNone,
    /// A delivery completed while the receiver had granted no credit.
    TransferLimitExceeded,
}

/// A delivery as handed to the application: all its transfers' bytes.
#[derive(Debug)]
pub struct Delivery {
    pub delivery_id: Option<DeliveryNumber>,
    pub delivery_tag: Vec<u8>,
    pub payload: Vec<u8>,
}

/// The bytes of a delivery whose last transfer has not come yet.
#[derive(Debug)]
pub struct IncompleteDelivery {
    pub delivery_id: Option<DeliveryNumber>,
    pub delivery_tag: Vec<u8>,
    pub buffer: Vec<u8>,
}

/// The receiving end of a link.
#[derive(Debug)]
pub struct ReceiverLink {
    pub name: String,
    pub local_state: LinkState,
    pub output_handle: Option<Handle>,
    pub input_handle: Option<Handle>,
    pub snd_settle_mode: SenderSettleMode,
    pub rcv_settle_mode: ReceiverSettleMode,
    pub source: Option<Source>,
    pub target: Option<TargetArchetype>,
    pub max_message_size: u64,
    pub flow_state: LinkFlowState,
    pub incomplete: Option<IncompleteDelivery>,
}

/// Which error the receiver gives for the peer's `attach`, if any.
pub open spec fn receiver_attach_error(link: ReceiverLink, remote: Attach, check_modes: bool) -> Option<
    ReceiverAttachError,
> {
    if attach_next_state(link.local_state, remote.incomplete_unsettled) is None {
        Some(ReceiverAttachError::IllegalState)
    } else if remote.source is None {
        Some(ReceiverAttachError::IncomingSourceIsNone)
    } else if remote.target is None {
        Some(ReceiverAttachError::IncomingTargetIsNone)
    } else if !target_kind_ok(link.target, remote.target->0) {
        Some(ReceiverAttachError::CoordinatorIsNotImplemented)
    } else if (link.target matches Some(TargetArchetype::Target(t)) && !target_matches(
        t,
        remote.target->0->Target_0,
    )) {
        Some(ReceiverAttachError::TargetMismatch)
    } else if check_modes && link.rcv_settle_mode != remote.rcv_settle_mode {
        Some(ReceiverAttachError::RcvSettleModeNotSupported)
    } else if check_modes && link.snd_settle_mode != remote.snd_settle_mode {
        Some(ReceiverAttachError::SndSettleModeNotSupported)
    } else if remote.initial_delivery_count is None {
        Some(ReceiverAttachError::InitialDeliveryCountIsNone)
    } else {
        None
    }
}

/// Two receivers agree on everything but their flow state.
pub open spec fn receiver_same_but_flow(a: ReceiverLink, b: ReceiverLink) -> bool {
    &&& a.name == b.name
    &&& a.local_state == b.local_state
    &&& a.output_handle == b.output_handle
    &&& a.input_handle == b.input_handle
    &&& a.snd_settle_mode == b.snd_settle_mode
    &&& a.rcv_settle_mode == b.rcv_settle_mode
    &&& a.source == b.source
    &&& a.target == b.target
    &&& a.max_message_size == b.max_message_size
    &&& a.incomplete == b.incomplete
}

/// The receiver after it took in the peer's `attach`.
pub open spec fn receiver_attached(before: ReceiverLink, after: ReceiverLink, remote: Attach) -> bool {
    &&& after.local_state == attach_next_state(before.local_state, remote.incomplete_unsettled)->0
    &&& after.input_handle == Some(remote.handle)
    &&& after.source == remote.source
    &&& after.target == if before.target is Some {
        before.target
    } else {
        remote.target
    }
    &&& after.flow_state.delivery_count == remote.initial_delivery_count->0
    &&& after.flow_state.initial_delivery_count == remote.initial_delivery_count->0
    &&& after.flow_state.link_credit == before.flow_state.link_credit
    &&& after.max_message_size == max_message_size_spec(
        before.max_message_size,
        match remote.max_message_size {
            Some(m) => m,
            None => 0,
        },
    )
    &&& after.name == before.name
    &&& after.output_handle == before.output_handle
    &&& after.incomplete == before.incomplete
}

impl ReceiverLink {
    /// A new receiver, not attached yet, with no credit granted.
    pub fn new(
        name: String,
        output_handle: Option<Handle>,
        snd_settle_mode: SenderSettleMode,
        rcv_settle_mode: ReceiverSettleMode,
        source: Option<Source>,
        target: Option<TargetArchetype>,
        max_message_size: u64,
    ) -> (r: ReceiverLink)
        ensures
            r.name == name,
            r.local_state == LinkState::Unattached,
            r.output_handle == output_handle,
            r.input_handle is None,
            r.snd_settle_mode == snd_settle_mode,
            r.rcv_settle_mode == rcv_settle_mode,
            r.source == source,
            r.target == target,
            r.max_message_size == max_message_size,
            r.flow_state == LinkFlowState::new_spec(0),
            r.incomplete is None,
    {
        ReceiverLink {
            name,
            local_state: LinkState::Unattached,
            output_handle,
            input_handle: None,
            snd_settle_mode,
            rcv_settle_mode,
            source,
            target,
            max_message_size,
            flow_state: LinkFlowState::new(0),
            incomplete: None,
        }
    }

    /// Takes in the sender's `attach`. The sender holds the authoritative
    /// source, which the receiver adopts; the receiver holds the
    /// authoritative target, which the peer's must match. The settle modes
    /// must agree. The delivery count starts at the sender's initial count.
    /// On an error nothing changes.
    pub fn on_incoming_attach(&mut self, remote_attach: Attach) -> (r: Result<(), ReceiverAttachError>)
        ensures
            receiver_attach_error(*old(self), remote_attach, true) is Some ==> r == Err::<
                (),
                ReceiverAttachError,
            >(receiver_attach_error(*old(self), remote_attach, true)->0) && *final(self) == *old(self),
            receiver_attach_error(*old(self), remote_attach, true) is None ==> receiver_attached(
                *old(self),
                *final(self),
                remote_attach,
            ) && r is Ok,
    {
        self.take_incoming_attach(remote_attach, true)
    }

    /// Takes in the `attach` of a sender that started the link, as the
    /// accepting end: the receiver keeps the settle mode it chose and takes
    /// the sender's.
    pub fn on_incoming_attach_as_acceptor(&mut self, remote_attach: Attach) -> (r: Result<
        (),
        ReceiverAttachError,
    >)
        ensures
            receiver_attach_error(*old(self), remote_attach, false) is Some ==> r == Err::<
                (),
                ReceiverAttachError,
            >(receiver_attach_error(*old(self), remote_attach, false)->0) && *final(self) == *old(
                self),
            receiver_attach_error(*old(self), remote_attach, false) is None ==> receiver_attached(
                *old(self),
                *final(self),
                remote_attach,
            ) && r is Ok && final(self).snd_settle_mode == remote_attach.snd_settle_mode
                && final(self).rcv_settle_mode == old(self).rcv_settle_mode,
    {
        self.take_incoming_attach(remote_attach, false)
    }

    fn take_incoming_attach(&mut self, remote_attach: Attach, check_modes: bool) -> (r: Result<
        (),
        ReceiverAttachError,
    >)
        ensures
            receiver_attach_error(*old(self), remote_attach, check_modes) is Some ==> r == Err::<
                (),
                ReceiverAttachError,
            >(receiver_attach_error(*old(self), remote_attach, check_modes)->0) && *final(self)
                == *old(self),
            receiver_attach_error(*old(self), remote_attach, check_modes) is None ==> receiver_attached(
                *old(self),
                *final(self),
                remote_attach,
            ) && r is Ok && final(self).snd_settle_mode == remote_attach.snd_settle_mode
                && final(self).rcv_settle_mode == old(self).rcv_settle_mode,
    {        let next = match next_attach_state(self.local_state, remote_attach.incomplete_unsettled) {
            Some(s) => s,
            None => return Err(ReceiverAttachError::IllegalState),
        };
        if remote_attach.source.is_none() {
            return Err(ReceiverAttachError::IncomingSourceIsNone);
        }
        match &remote_attach.target {
            None => return Err(ReceiverAttachError::IncomingTargetIsNone),
            Some(t) => {
                if !check_target_kind(&self.target, t) {
                    return Err(ReceiverAttachError::CoordinatorIsNotImplemented);
                }
                match (&self.target, t) {
                    (Some(TargetArchetype::Target(local)), TargetArchetype::Target(remote)) => {
                        if !local.matches(remote) {
                            return Err(ReceiverAttachError::TargetMismatch);
                        }
                    },
                    _ => {},
                }
            },
        }
        if check_modes && self.rcv_settle_mode != remote_attach.rcv_settle_mode {
            return Err(ReceiverAttachError::RcvSettleModeNotSupported);
        }
        if check_modes && self.snd_settle_mode != remote_attach.snd_settle_mode {
            return Err(ReceiverAttachError::SndSettleModeNotSupported);
        }
        let count = match remote_attach.initial_delivery_count {
            Some(c) => c,
            None => return Err(ReceiverAttachError::InitialDeliveryCountIsNone),
        };
        let Attach { handle, source, target, max_message_size, snd_settle_mode, .. } = remote_attach;
        self.snd_settle_mode = snd_settle_mode;
        self.local_state = next;
        self.input_handle = Some(handle);
        self.source = source;
        if self.target.is_none() {
            self.target = target;
        }
        self.flow_state.initial_delivery_count = count;
        self.flow_state.delivery_count = count;
        let remote_max = match max_message_size {
            Some(m) => m,
            None => 0,
        };
        self.max_message_size = get_max_message_size(self.max_message_size, remote_max);
        Ok(())
    }

    /// Sets the credit to an absolute value and makes the `flow` that grants it.
    pub fn set_credit(&mut self, credit: u32) -> (r: Result<LinkFlow, FlowError>)
        ensures
            old(self).output_handle is None ==> r == Err::<LinkFlow, FlowError>(
                FlowError::IllegalState,
            ) && final(self).flow_state == old(self).flow_state,
            old(self).output_handle is Some ==> {
                &&& final(self).flow_state == LinkFlowState {
                    link_credit: credit,
                    ..old(self).flow_state
                }
                &&& receiver_same_but_flow(*old(self), *final(self))
                &&& r == Ok::<LinkFlow, FlowError>(
                    LinkFlow {
                        handle: old(self).output_handle->0,
                        delivery_count: Some(old(self).flow_state.delivery_count),
                        link_credit: Some(credit),
                        available: None,
                        drain: old(self).flow_state.drain,
                        echo: false,
                    },
                )
            },
            final(self).incomplete == old(self).incomplete,
    {
        let handle = match self.output_handle {
            Some(h) => h,
            None => return Err(FlowError::IllegalState),
        };
        self.flow_state.link_credit = credit;
        Ok(
            LinkFlow {
                handle,
                delivery_count: Some(self.flow_state.delivery_count),
                link_credit: Some(credit),
                available: None,
                drain: self.flow_state.drain,
                echo: false,
            },
        )
    }

    /// Asks the sender to use up the outstanding credit, and makes that `flow`.
    pub fn drain(&mut self) -> (r: Result<LinkFlow, FlowError>)
        ensures
            old(self).output_handle is None ==> r == Err::<LinkFlow, FlowError>(
                FlowError::IllegalState,
            ) && final(self).flow_state == old(self).flow_state,
            old(self).output_handle is Some ==> {
                &&& final(self).flow_state == LinkFlowState { drain: true, ..old(self).flow_state }
                &&& receiver_same_but_flow(*old(self), *final(self))
                &&& r == Ok::<LinkFlow, FlowError>(
                    LinkFlow {
                        handle: old(self).output_handle->0,
                        delivery_count: Some(old(self).flow_state.delivery_count),
                        link_credit: Some(old(self).flow_state.link_credit),
                        available: None,
                        drain: true,
                        echo: false,
                    },
                )
            },
            final(self).incomplete == old(self).incomplete,
    {
        let handle = match self.output_handle {
            Some(h) => h,
            None => return Err(FlowError::IllegalState),
        };
        self.flow_state.drain = true;
        Ok(
            LinkFlow {
                handle,
                delivery_count: Some(self.flow_state.delivery_count),
                link_credit: Some(self.flow_state.link_credit),
                available: None,
                drain: true,
                echo: false,
            },
        )
    }

    /// Takes in one transfer. An aborted transfer drops what was assembled
    /// of its delivery. Otherwise its bytes are appended; on the last one
    /// (`more` unset) the delivery is complete and takes one unit of credit.
    pub fn on_incoming_transfer(&mut self, transfer: Transfer, payload: &Vec<u8>) -> (r: Result<
        Option<Delivery>,
        ReceiverTransferError,
    >)
        ensures
            transfer.aborted ==> r == Ok::<Option<Delivery>, ReceiverTransferError>(None)
                && final(self).incomplete is None && final(self).flow_state == old(self).flow_state,
            !transfer.aborted && old(self).incomplete is None && transfer.delivery_tag is None
                ==> r == Err::<Option<Delivery>, ReceiverTransferError>(
                ReceiverTransferError::DeliveryTagIsNone,
            ) && final(self).incomplete is None && final(self).flow_state == old(self).flow_state,
            !transfer.aborted && (old(self).incomplete is Some || transfer.delivery_tag is Some)
                ==> {
                let assembled = match old(self).incomplete {
                    Some(inc) => inc.buffer@ + payload@,
                    None => payload@,
                };
                let tag = match old(self).incomplete {
                    Some(inc) => inc.delivery_tag@,
                    None => transfer.delivery_tag->0@,
                };
                if transfer.more {
                    &&& r == Ok::<Option<Delivery>, ReceiverTransferError>(None)
                    &&& final(self).incomplete is Some
                    &&& final(self).incomplete->0.buffer@ == assembled
                    &&& final(self).incomplete->0.delivery_tag@ == tag
                    &&& final(self).flow_state == old(self).flow_state
                } else if old(self).flow_state.link_credit == 0 {
                    &&& r == Err::<Option<Delivery>, ReceiverTransferError>(
                        ReceiverTransferError::TransferLimitExceeded,
                    )
                    &&& final(self).incomplete is None
                    &&& final(self).flow_state == old(self).flow_state
                } else {
                    &&& r is Ok && r->Ok_0 is Some
                    &&& r->Ok_0->0.payload@ == assembled
                    &&& r->Ok_0->0.delivery_tag@ == tag
                    &&& final(self).incomplete is None
                    &&& final(self).flow_state.link_credit == old(self).flow_state.link_credit - 1
                    &&& final(self).flow_state.delivery_count == seq_add(
                        old(self).flow_state.delivery_count,
                        1,
                    )
                    &&& final(self).flow_state.drain == old(self).flow_state.drain
                }
            },
    {
        if transfer.aborted {
            self.incomplete = None;
            return Ok(None);
        }
        let Transfer { delivery_id, delivery_tag, more, .. } = transfer;
        let mut inc = match self.incomplete.take() {
            Some(inc) => inc,
            None => match delivery_tag {
                Some(tag) => IncompleteDelivery { delivery_id, delivery_tag: tag, buffer: Vec::new() },
                None => return Err(ReceiverTransferError::DeliveryTagIsNone),
            },
        };
        let ghost before = inc.buffer@;
        let ghost tag0 = inc.delivery_tag;
        let mut i: usize = 0;
        while i < payload.len()
            invariant
                0 <= i <= payload@.len(),
                inc.buffer@ == before + payload@.take(i as int),
                inc.delivery_tag == tag0,
            decreases payload.len() - i,
        {
            inc.buffer.push(payload[i]);
            assert(payload@.take(i + 1) =~= payload@.take(i as int).push(payload@[i as int]));
            i += 1;
        }
        assert(payload@.take(i as int) =~= payload@);
        proof {
            if old(self).incomplete is None {
                assert(before =~= Seq::<u8>::empty());
                assert(inc.buffer@ =~= payload@);
            }
        }
        proof {
            match old(self).incomplete {
                Some(oi) => {
                    assert(inc.buffer@ == oi.buffer@ + payload@);
                    assert(inc.delivery_tag@ == oi.delivery_tag@);
                },
                None => {
                    assert(inc.buffer@ == payload@);
                    assert(inc.delivery_tag@ == transfer.delivery_tag->0@);
                },
            }
        }
        if more {
            self.incomplete = Some(inc);
            return Ok(None);
        }
        if self.flow_state.link_credit == 0 {
            return Err(ReceiverTransferError::TransferLimitExceeded);
        }
        self.flow_state.link_credit = self.flow_state.link_credit - 1;
        self.flow_state.delivery_count = wrapping_seq_add(self.flow_state.delivery_count, 1);
        Ok(
            Some(
                Delivery {
                    delivery_id: inc.delivery_id,
                    delivery_tag: inc.delivery_tag,
                    payload: inc.buffer,
                },
            ),
        )
    }
}

/// After both ends took in each other's `attach` without error, the
/// receiver's source is the one the sender holds, and the sender's target is
/// the one the receiver holds.
pub proof fn lemma_attach_authority(
    sender_before: SenderLink,
    sender_after: SenderLink,
    receiver_before: ReceiverLink,
    receiver_after: ReceiverLink,
    attach_from_sender: Attach,
    attach_from_receiver: Attach,
)
    requires
        attach_from_sender.source == sender_before.source,
        attach_from_receiver.target == receiver_before.target,
        receiver_before.target is Some,
        sender_attach_error(sender_before, attach_from_receiver) is None,
        receiver_attach_error(receiver_before, attach_from_sender, true) is None,
        sender_after.source == sender_before.source,
        sender_after.target == attach_from_receiver.target,
        receiver_after.source == attach_from_sender.source,
        receiver_after.target == receiver_before.target,
    ensures
        receiver_after.source == sender_after.source,
        sender_after.target == receiver_after.target,
{
}

proof fn lemma_unsettled_map_domain(s: Seq<UnsettledMessage>, t: Seq<u8>)
    ensures
        unsettled_map(s).contains_key(t) <==> exists|j: int| 0 <= j < s.len() && #[trigger] s[j].tag@ == t,
    decreases s.len(),
{
    if s.len() > 0 {
        lemma_unsettled_map_domain(s.drop_last(), t);
        if exists|j: int| 0 <= j < s.len() && #[trigger] s[j].tag@ == t {
            let j = choose|j: int| 0 <= j < s.len() && #[trigger] s[j].tag@ == t;
            if j < s.len() - 1 {
                assert(s.drop_last()[j].tag@ == t);
            }
        }
        if exists|j: int| 0 <= j < s.drop_last().len() && #[trigger] s.drop_last()[j].tag@ == t {
            let j = choose|j: int| 0 <= j < s.drop_last().len() && #[trigger] s.drop_last()[j].tag@ == t;
            assert(s[j].tag@ == t);
        }
    }
}

proof fn lemma_remote_only_domain(
    remote: Seq<(Vec<u8>, Option<DeliveryState>)>,
    local: Seq<UnsettledMessage>,
    t: Seq<u8>,
)
    ensures
        (exists|i: int| 0 <= i < remote_only(remote, local).len() && #[trigger] remote_only(
            remote,
            local,
        )[i].0 == t) <==> (!unsettled_map(local).contains_key(t) && exists|k: int|
            0 <= k < remote.len() && #[trigger] remote[k].0@ == t),
        forall|i: int|
            0 <= i < remote_only(remote, local).len() ==> #[trigger] remote_only(remote, local)[i].1
                == ResumingDelivery::Abort,
    decreases remote.len(),
{
    if remote.len() > 0 {
        let p = remote.drop_last();
        lemma_remote_only_domain(p, local, t);
        let prev = remote_only(p, local);
        let cur = remote_only(remote, local);
        if exists|k: int| 0 <= k < remote.len() && #[trigger] remote[k].0@ == t {
            let k = choose|k: int| 0 <= k < remote.len() && #[trigger] remote[k].0@ == t;
            if k < remote.len() - 1 {
                assert(p[k].0@ == t);
            }
        }
        if exists|k: int| 0 <= k < p.len() && #[trigger] p[k].0@ == t {
            let k = choose|k: int| 0 <= k < p.len() && #[trigger] p[k].0@ == t;
            assert(remote[k].0@ == t);
        }
        if exists|i: int| 0 <= i < prev.len() && #[trigger] prev[i].0 == t {
            let i = choose|i: int| 0 <= i < prev.len() && #[trigger] prev[i].0 == t;
            assert(cur[i] == prev[i]);
        }
        if exists|i: int| 0 <= i < cur.len() && #[trigger] cur[i].0 == t {
            let i = choose|i: int| 0 <= i < cur.len() && #[trigger] cur[i].0 == t;
            if i < prev.len() {
                assert(prev[i] == cur[i]);
            } else {
                assert(cur[i] == (remote.last().0@, ResumingDelivery::Abort));
                assert(remote[remote.len() - 1].0@ == t);
            }
        }
        if !unsettled_map(local).contains_key(remote.last().0@) {
            assert(cur[prev.len() as int] == (remote.last().0@, ResumingDelivery::Abort));
            if remote.last().0@ == t {
                assert(cur[prev.len() as int].0 == t);
            }
        }
        assert forall|i: int| 0 <= i < cur.len() implies #[trigger] cur[i].1 == ResumingDelivery::Abort by {
            if i < prev.len() {
                assert(cur[i] == prev[i]);
            }
        }
    }
}

/// Resumption acts on exactly the tags either end holds: each tag only
/// the peer holds is aborted, each local entry gets the action the
/// resumption rule gives for its states. The actions depend on nothing but
/// the two maps, so running the rule again on them gives the same actions.
pub proof fn lemma_resume_actions_cover(
    local: Seq<UnsettledMessage>,
    remote: Seq<(Vec<u8>, Option<DeliveryState>)>,
    t: Seq<u8>,
)
    ensures
        (exists|i: int| 0 <= i < resume_actions(local, remote).len() && #[trigger] resume_actions(
            local,
            remote,
        )[i].0 == t) <==> ((exists|j: int| 0 <= j < local.len() && #[trigger] local[j].tag@ == t)
            || (exists|k: int| 0 <= k < remote.len() && #[trigger] remote[k].0@ == t)),
        forall|i: int|
            0 <= i < local.len() ==> #[trigger] resume_actions(local, remote)[i] == (
                local[i].tag@,
                resume_one(opt_terminal(local[i].state), remote_lookup(remote, local[i].tag@)),
            ),
        forall|i: int|
            local.len() <= i < resume_actions(local, remote).len() ==> #[trigger] resume_actions(
                local,
                remote,
            )[i].1 == ResumingDelivery::Abort,
{
    lemma_unsettled_map_domain(local, t);
    lemma_remote_only_domain(remote, local, t);
    let a = resume_actions(local, remote);
    let head = local.map_values(
        |e: UnsettledMessage| (e.tag@, resume_one(opt_terminal(e.state), remote_lookup(remote, e.tag@))),
    );
    let tail = remote_only(remote, local);
    assert(a == head + tail);
    if exists|i: int| 0 <= i < a.len() && #[trigger] a[i].0 == t {
        let i = choose|i: int| 0 <= i < a.len() && #[trigger] a[i].0 == t;
        if i < local.len() {
            assert(local[i].tag@ == t);
        } else {
            assert(tail[i - local.len()].0 == t);
        }
    }
    if exists|j: int| 0 <= j < local.len() && #[trigger] local[j].tag@ == t {
        let j = choose|j: int| 0 <= j < local.len() && #[trigger] local[j].tag@ == t;
        assert(a[j].0 == t);
    } else if exists|k: int| 0 <= k < remote.len() && #[trigger] remote[k].0@ == t {
        let i = choose|i: int| 0 <= i < tail.len() && #[trigger] tail[i].0 == t;
        assert(a[local.len() + i].0 == t);
    }
    assert forall|i: int| local.len() <= i < a.len() implies #[trigger] a[i].1 == ResumingDelivery::Abort by {
        assert(a[i] == tail[i - local.len()]);
    }
}

/// The state after this end sent `attach`, if it may.
pub open spec fn after_attach_sent(s: LinkState) -> Option<LinkState> {
    match s {
        LinkState::Unattached => Some(LinkState::AttachSent),
        LinkState::Detached => Some(LinkState::AttachSent),
        LinkState::AttachReceived => Some(LinkState::Attached),
        LinkState::IncompleteAttachReceived => Some(LinkState::IncompleteAttachExchanged),
        _ => None,
    }
}

fn next_after_attach_sent(s: LinkState) -> (r: Option<LinkState>)
    ensures
        r == after_attach_sent(s),
{
    match s {
        LinkState::Unattached => Some(LinkState::AttachSent),
        LinkState::Detached => Some(LinkState::AttachSent),
        LinkState::AttachReceived => Some(LinkState::Attached),
        LinkState::IncompleteAttachReceived => Some(LinkState::IncompleteAttachExchanged),
        _ => None,
    }
}

impl SenderLink {
    /// This end sent its `attach`.
    pub fn on_attach_sent(&mut self) -> (r: Result<(), SenderAttachError>)
        ensures
            after_attach_sent(old(self).local_state) is Some ==> r is Ok && final(self).local_state
                == after_attach_sent(old(self).local_state)->0,
            after_attach_sent(old(self).local_state) is None ==> r == Err::<(), SenderAttachError>(
                SenderAttachError::IllegalState,
            ) && final(self).local_state == old(self).local_state,
            same_but_state(*old(self), *final(self)),
    {
        match next_after_attach_sent(self.local_state) {
            Some(s) => {
                self.local_state = s;
                Ok(())
            },
            None => Err(SenderAttachError::IllegalState),
        }
    }

    /// Takes in the receiver's disposition of a delivery. A settled one
    /// leaves the unsettled map and its state is the outcome handed to the
    /// sender's waiter; an unsettled one records the state.
    pub fn on_incoming_disposition(
        &mut self,
        delivery_tag: &Vec<u8>,
        settled: bool,
        state: Option<DeliveryState>,
    ) -> (r: Option<DeliveryState>)
        ensures
            settled ==> r == state && unsettled_map(final(self).unsettled@) == unsettled_map(
                old(self).unsettled@,
            ).remove(delivery_tag@),
            !settled && state is Some ==> r is None && unsettled_state_set(
                old(self).unsettled@,
                final(self).unsettled@,
                delivery_tag@,
                state->0,
            ),
            !settled && state is None ==> r is None && final(self).unsettled == old(self).unsettled,
            same_but_unsettled(*old(self), *final(self)),
    {
        if settled {
            let _ = remove_unsettled(&mut self.unsettled, delivery_tag);
            state
        } else {
            match state {
                Some(st) => {
                    set_unsettled_state(&mut self.unsettled, delivery_tag, st);
                    proof {
                        assert(same_state(st, st)) by {
                            lemma_same_state_refl(st);
                        }
                    }
                    None
                },
                None => None,
            }
        }
    }
}

proof fn lemma_same_state_refl(s: DeliveryState)
    ensures
        same_state(s, s),
{
}

/// Two sender links agree on everything but their attach state.
pub open spec fn same_but_state(a: SenderLink, b: SenderLink) -> bool {
    &&& a.name == b.name
    &&& a.output_handle == b.output_handle
    &&& a.input_handle == b.input_handle
    &&& a.snd_settle_mode == b.snd_settle_mode
    &&& a.rcv_settle_mode == b.rcv_settle_mode
    &&& a.source == b.source
    &&& a.target == b.target
    &&& a.max_message_size == b.max_message_size
    &&& a.flow_state == b.flow_state
    &&& a.unsettled == b.unsettled
}

/// What a sender does when the attach exchange failed.
#[derive(Debug)]
pub enum AttachErrorAction {
    /// Hand the error to the application; nothing is sent.
    Report,
    /// Detach at once, closing the link, and wait for the peer's `detach`.
    DetachClosed,
    /// Detach, closing the link, with this error, and wait for the peer's `detach`.
    DetachWithError(Error),
}

/// The condition a refused attach is detached with, if any: settle modes
/// or a source that disagree are an invalid field; a coordinator this end
/// does not implement is not implemented.
pub open spec fn attach_error_condition(err: SenderAttachError) -> Option<AmqpError> {
    match err {
        SenderAttachError::RcvSettleModeNotSupported => Some(AmqpError::InvalidField),
        SenderAttachError::SndSettleModeNotSupported => Some(AmqpError::InvalidField),
        SenderAttachError::SourceMismatch => Some(AmqpError::InvalidField),
        SenderAttachError::CoordinatorIsNotImplemented => Some(AmqpError::NotImplemented),
        _ => None,
    }
}

/// Decides how a failed attach is wound up: a local state error is only
/// reported; a peer that named no source or target is detached at once; a
/// field the peer got wrong is detached with the matching condition.
pub fn handle_attach_error(err: SenderAttachError) -> (r: AttachErrorAction)
    ensures
        err == SenderAttachError::IllegalState ==> r is Report,
        (err == SenderAttachError::IncomingSourceIsNone || err
            == SenderAttachError::IncomingTargetIsNone) ==> r is DetachClosed,
        attach_error_condition(err) is Some ==> r is DetachWithError && r->DetachWithError_0.condition
            == ErrorCondition::AmqpError(attach_error_condition(err)->0)
            && r->DetachWithError_0.description is None,
{
    match err {
        SenderAttachError::IllegalState => AttachErrorAction::Report,
        SenderAttachError::IncomingSourceIsNone | SenderAttachError::IncomingTargetIsNone => {
            AttachErrorAction::DetachClosed
        },
        SenderAttachError::RcvSettleModeNotSupported
        | SenderAttachError::SndSettleModeNotSupported
        | SenderAttachError::SourceMismatch => AttachErrorAction::DetachWithError(
            Error::new(ErrorCondition::AmqpError(AmqpError::InvalidField), None),
        ),
        SenderAttachError::CoordinatorIsNotImplemented => AttachErrorAction::DetachWithError(
            Error::new(ErrorCondition::AmqpError(AmqpError::NotImplemented), None),
        ),
    }
}

/// The state after this end sent `detach`; `closed` ends the link for good.
pub open spec fn after_detach_sent(s: LinkState, closed: bool) -> Option<LinkState> {
    match s {
        LinkState::Attached | LinkState::IncompleteAttachExchanged | LinkState::AttachSent
        | LinkState::AttachReceived | LinkState::IncompleteAttachSent
        | LinkState::IncompleteAttachReceived => Some(LinkState::DetachSent),
        LinkState::DetachReceived => Some(
            if closed {
                LinkState::Closed
            } else {
                LinkState::Detached
            },
        ),
        _ => None,
    }
}

/// The state after the peer's `detach` came.
pub open spec fn after_detach_received(s: LinkState, closed: bool) -> Option<LinkState> {
    match s {
        LinkState::Attached | LinkState::IncompleteAttachExchanged | LinkState::AttachSent
        | LinkState::AttachReceived | LinkState::IncompleteAttachSent
        | LinkState::IncompleteAttachReceived => Some(LinkState::DetachReceived),
        LinkState::DetachSent => Some(
            if closed {
                LinkState::Closed
            } else {
                LinkState::Detached
            },
        ),
        _ => None,
    }
}

impl LinkState {
    pub fn on_detach_sent(self, closed: bool) -> (r: Option<LinkState>)
        ensures
            r == after_detach_sent(self, closed),
    {
        match self {
            LinkState::Attached | LinkState::IncompleteAttachExchanged | LinkState::AttachSent
            | LinkState::AttachReceived | LinkState::IncompleteAttachSent
            | LinkState::IncompleteAttachReceived => Some(LinkState::DetachSent),
            LinkState::DetachReceived => Some(
                if closed {
                    LinkState::Closed
                } else {
                    LinkState::Detached
                },
            ),
            _ => None,
        }
    }

    pub fn on_detach_received(self, closed: bool) -> (r: Option<LinkState>)
        ensures
            r == after_detach_received(self, closed),
    {
        match self {
            LinkState::Attached | LinkState::IncompleteAttachExchanged | LinkState::AttachSent
            | LinkState::AttachReceived | LinkState::IncompleteAttachSent
            | LinkState::IncompleteAttachReceived => Some(LinkState::DetachReceived),
            LinkState::DetachSent => Some(
                if closed {
                    LinkState::Closed
                } else {
                    LinkState::Detached
                },
            ),
            _ => None,
        }
    }
}

} // verus!
