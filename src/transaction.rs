//! The resource side of transactions: a coordinator that declares
//! transactions and discharges them, applying or dropping their work.
use vstd::prelude::*;
use crate::definitions::{DeliveryState, TargetArchetype};
use crate::link::{bytes_eq, delivery_tag_of, tag_bytes};

verus! {

/// Options of a transaction manager.
#[derive(Clone, Copy, Debug, PartialEq, Eq, Structural)]
pub struct TransactionManagerBuilder {
    /// The number the first declared transaction id is made from.
    pub first_txn_id: u64,
}

impl TransactionManagerBuilder {
    pub open spec fn new_spec() -> TransactionManagerBuilder {
        TransactionManagerBuilder { first_txn_id: 0 }
    }

    pub fn new() -> (r: TransactionManagerBuilder)
        ensures
            r == TransactionManagerBuilder::new_spec(),
    {
        TransactionManagerBuilder { first_txn_id: 0 }
    }
}

/// Errors of transaction control.
#[derive(Clone, Copy, Debug, PartialEq, Eq, Structural)]
pub enum TransactionError {
    /// The transaction id is not a declared, undischarged transaction.
    UnknownId,
    /// The transaction was rolled back.
    TransactionRollback,
    /// The transaction timed out.
    TransactionTimeout,
    /// Every transaction id has been handed out.
    IdsExhausted,
}

/// The work of one transaction: the payloads it will make visible.
#[derive(Debug)]
pub struct TransactionalWork {
    pub txn_id: Vec<u8>,
    pub transfers: Vec<Vec<u8>>,
}

/// The work of the transactions held in a vector: a later entry for an id
/// hides earlier ones.
pub open spec fn txn_map(s: Seq<TransactionalWork>) -> Map<Seq<u8>, Seq<Vec<u8>>>
    decreases s.len(),
{
    if s.len() == 0 {
        Map::empty()
    } else {
        txn_map(s.drop_last()).insert(s.last().txn_id@, s.last().transfers@)
    }
}

/// The coordinator's side of transactions.
#[derive(Debug)]
pub struct TransactionManager {
    pub txn_id_source: u64,
    pub txns: Vec<TransactionalWork>,
}

fn take_txn(v: &mut Vec<TransactionalWork>, txn_id: &Vec<u8>) -> (r: Option<TransactionalWork>)
    ensures
        txn_map(final(v)@) == txn_map(old(v)@).remove(txn_id@),
        r is Some <==> txn_map(old(v)@).contains_key(txn_id@),
        r is Some ==> r->0.transfers@ == txn_map(old(v)@)[txn_id@],
        r is Some ==> r->0.txn_id@ == txn_id@,
{
    let ghost all = v@;
    let mut kept: Vec<TransactionalWork> = Vec::new();
    let mut found: Option<TransactionalWork> = None;
    let n = v.len();
    let mut i: usize = 0;
    assert(all.take(0) =~= Seq::<TransactionalWork>::empty());
    assert(txn_map(kept@) =~= txn_map(all.take(0)).remove(txn_id@));
    while i < n
        invariant
            n == all.len(),
            0 <= i <= n,
            v@ == all.skip(i as int),
            txn_map(kept@) == txn_map(all.take(i as int)).remove(txn_id@),
            found is Some <==> txn_map(all.take(i as int)).contains_key(txn_id@),
            found is Some ==> found->0.transfers@ == txn_map(all.take(i as int))[txn_id@],
            found is Some ==> found->0.txn_id@ == txn_id@,
        decreases n - i,
    {
        let e = v.remove(0);
        assert(e == all[i as int]);
        assert(v@ =~= all.skip(i + 1));
        assert(all.take(i + 1).drop_last() =~= all.take(i as int));
        let ghost prev = txn_map(all.take(i as int));
        if bytes_eq(&e.txn_id, txn_id) {
            assert(txn_map(all.take(i + 1)).remove(txn_id@) =~= prev.remove(txn_id@));
            found = Some(e);
        } else {
            let ghost before = kept@;
            kept.push(e);
            assert(kept@.drop_last() =~= before);
            assert(txn_map(kept@) =~= txn_map(all.take(i + 1)).remove(txn_id@));
        }
        i += 1;
    }
    assert(all.take(n as int) =~= all);
    *v = kept;
    found
}

impl TransactionManager {
    /// A manager with no transaction; ids are made from the builder's number on.
    pub fn new(builder: &TransactionManagerBuilder) -> (r: TransactionManager)
        ensures
            r.txn_id_source == builder.first_txn_id,
            txn_map(r.txns@) == Map::<Seq<u8>, Seq<Vec<u8>>>::empty(),
    {
        let r = TransactionManager { txn_id_source: builder.first_txn_id, txns: Vec::new() };
        assert(txn_map(r.txns@) =~= Map::<Seq<u8>, Seq<Vec<u8>>>::empty());
        r
    }

    /// Declares a transaction: a fresh id (the big-endian bytes of the next
    /// number, without leading zeros) with no work yet.
    pub fn allocate_transaction_id(&mut self) -> (r: Result<Vec<u8>, TransactionError>)
        ensures
            old(self).txn_id_source > u32::MAX ==> r == Err::<Vec<u8>, TransactionError>(
                TransactionError::IdsExhausted,
            ) && final(self).txn_id_source == old(self).txn_id_source && final(self).txns
                == old(self).txns,
            old(self).txn_id_source <= u32::MAX ==> {
                &&& r is Ok
                &&& r->Ok_0@ == tag_bytes(old(self).txn_id_source as nat)
                &&& final(self).txn_id_source == old(self).txn_id_source + 1
                &&& txn_map(final(self).txns@) == txn_map(old(self).txns@).insert(
                    r->Ok_0@,
                    Seq::empty(),
                )
            },
    {
        if self.txn_id_source > 0xffff_ffff {
            return Err(TransactionError::IdsExhausted);
        }
        let id = delivery_tag_of(self.txn_id_source as u32);
        let ghost before = self.txns@;
        let _ = take_txn(&mut self.txns, &id);
        let ghost mid = self.txns@;
        self.txns.push(TransactionalWork { txn_id: id.clone(), transfers: Vec::new() });
        assert(self.txns@.drop_last() =~= mid);
        assert(txn_map(self.txns@) =~= txn_map(before).insert(id@, Seq::empty()));
        self.txn_id_source = self.txn_id_source + 1;
        Ok(id)
    }

    /// Buffers a transfer's payload as work of a declared transaction.
    pub fn post_transfer(&mut self, txn_id: &Vec<u8>, payload: Vec<u8>) -> (r: Result<
        (),
        TransactionError,
    >)
        ensures
            !txn_map(old(self).txns@).contains_key(txn_id@) ==> r == Err::<(), TransactionError>(
                TransactionError::UnknownId,
            ) && txn_map(final(self).txns@) == txn_map(old(self).txns@),
            txn_map(old(self).txns@).contains_key(txn_id@) ==> r is Ok && txn_map(final(self).txns@)
                == txn_map(old(self).txns@).insert(
                txn_id@,
                txn_map(old(self).txns@)[txn_id@].push(payload),
            ),
            final(self).txn_id_source == old(self).txn_id_source,
    {
        let ghost before = self.txns@;
        match take_txn(&mut self.txns, txn_id) {
            None => {
                assert(txn_map(self.txns@) =~= txn_map(before));
                Err(TransactionError::UnknownId)
            },
            Some(mut work) => {
                let ghost w0 = work.transfers@;
                work.transfers.push(payload);
                let ghost mid = self.txns@;
                self.txns.push(work);
                assert(self.txns@.drop_last() =~= mid);
                assert(txn_map(self.txns@) =~= txn_map(before).insert(txn_id@, w0.push(payload)));
                Ok(())
            },
        }
    }

    /// Discharges a transaction: it is forgotten, and on success (`fail`
    /// unset) its work is handed back to be applied at once; on failure the
    /// work is dropped.
    pub fn discharge(&mut self, txn_id: &Vec<u8>, fail: bool) -> (r: Result<
        Vec<Vec<u8>>,
        TransactionError,
    >)
        ensures
            !txn_map(old(self).txns@).contains_key(txn_id@) ==> r == Err::<
                Vec<Vec<u8>>,
                TransactionError,
            >(TransactionError::UnknownId),
            txn_map(old(self).txns@).contains_key(txn_id@) ==> {
                &&& r is Ok
                &&& !fail ==> r->Ok_0@ == txn_map(old(self).txns@)[txn_id@]
                &&& fail ==> r->Ok_0@.len() == 0
            },
            txn_map(final(self).txns@) == txn_map(old(self).txns@).remove(txn_id@),
            final(self).txn_id_source == old(self).txn_id_source,
    {
        match take_txn(&mut self.txns, txn_id) {
            None => Err(TransactionError::UnknownId),
            Some(work) => {
                if fail {
                    Ok(Vec::new())
                } else {
                    Ok(work.transfers)
                }
            },
        }
    }

    /// The coordinator's reply to `declare`: the declared state with a fresh id.
    pub fn on_declare(&mut self) -> (r: Result<DeliveryState, TransactionError>)
        ensures
            old(self).txn_id_source <= u32::MAX ==> r is Ok && (r->Ok_0 matches DeliveryState::Declared {
                txn_id,
            } && txn_id@ == tag_bytes(old(self).txn_id_source as nat) && txn_map(final(self).txns@)
                == txn_map(old(self).txns@).insert(txn_id@, Seq::empty())),
            old(self).txn_id_source > u32::MAX ==> r == Err::<DeliveryState, TransactionError>(
                TransactionError::IdsExhausted,
            ),
    {
        match self.allocate_transaction_id() {
            Ok(txn_id) => Ok(DeliveryState::Declared { txn_id }),
            Err(e) => Err(e),
        }
    }
}

/// Where a session sends the peer's `attach`.
#[derive(Clone, Copy, Debug, PartialEq, Eq, Structural)]
pub enum AttachDestination {
    /// A control link: its target is a transaction coordinator.
    Coordinator,
    /// An ordinary link.
    Session,
}

/// Sends an `attach` whose target is a coordinator to the transaction
/// manager, and any other to the session's own link handling.
pub fn route_incoming_attach(target: &Option<TargetArchetype>) -> (r: AttachDestination)
    ensures
        (*target matches Some(TargetArchetype::Coordinator(_))) <==> r == AttachDestination::Coordinator,
{
    match target {
        Some(TargetArchetype::Coordinator(_)) => AttachDestination::Coordinator,
        _ => AttachDestination::Session,
    }
}

impl TransactionManager {
    /// Routes a transfer by its delivery state: under a transactional state
    /// its payload becomes work of that transaction (hidden until the
    /// commit); otherwise it is handed back to go to the resource at once.
    pub fn route_transfer(&mut self, state: &Option<DeliveryState>, payload: Vec<u8>) -> (r: Result<
        Option<Vec<u8>>,
        TransactionError,
    >)
        ensures
            match *state {
                Some(DeliveryState::TransactionalState { txn_id, .. }) => if txn_map(
                    old(self).txns@,
                ).contains_key(txn_id@) {
                    r == Ok::<Option<Vec<u8>>, TransactionError>(None) && txn_map(final(self).txns@)
                        == txn_map(old(self).txns@).insert(
                        txn_id@,
                        txn_map(old(self).txns@)[txn_id@].push(payload),
                    )
                } else {
                    r == Err::<Option<Vec<u8>>, TransactionError>(TransactionError::UnknownId)
                        && txn_map(final(self).txns@) == txn_map(old(self).txns@)
                },
                _ => r == Ok::<Option<Vec<u8>>, TransactionError>(Some(payload)) && final(self).txns
                    == old(self).txns,
            },
            final(self).txn_id_source == old(self).txn_id_source,
    {
        match state {
            Some(DeliveryState::TransactionalState { txn_id, .. }) => {
                match self.post_transfer(txn_id, payload) {
                    Ok(()) => Ok(None),
                    Err(e) => Err(e),
                }
            },
            _ => Ok(Some(payload)),
        }
    }
}

} // verus!
