//! Transactions bound to the substates they were pledged, split into the
//! pledges of this shard and those of other shards.

use vstd::prelude::*;
use crate::consensus_models::{ShardId, StorageError};
use crate::mempool::TransactionId;

verus! {

/// A shard's commitment to make one version of a substate available.
#[derive(Copy, Clone, Debug, PartialEq, Eq, Structural)]
pub struct SubstatePledge {
    pub substate_id: u64,
    pub version: u32,
    pub shard: ShardId,
}

/// A stored pledge for a transaction, local to this shard or foreign.
#[derive(Copy, Clone, Debug, PartialEq, Eq, Structural)]
pub struct PledgeRecord {
    pub transaction_id: TransactionId,
    pub pledge: SubstatePledge,
    pub is_local: bool,
}

/// A transaction known to the store.
#[derive(Copy, Clone, Debug, PartialEq, Eq, Structural)]
pub struct TransactionRecord {
    pub id: TransactionId,
}

impl TransactionRecord {
    pub fn id(&self) -> (r: TransactionId)
        ensures
            r == self.id,
    {
        self.id
    }
}

/// The stored transactions and their pledges.
pub struct PledgeStore {
    pub transactions: Vec<TransactionId>,
    pub pledges: Vec<PledgeRecord>,
}

/// The pledges in `records` for transaction `t` that are local (`local`) or
/// foreign (`!local`), in the order they were stored.
pub open spec fn pledges_of(records: Seq<PledgeRecord>, t: TransactionId, local: bool) -> Seq<SubstatePledge>
    decreases records.len(),
{
    if records.len() == 0 {
        seq![]
    } else {
        let rest = pledges_of(records.drop_last(), t, local);
        let last = records.last();
        if last.transaction_id == t && last.is_local == local {
            rest.push(last.pledge)
        } else {
            rest
        }
    }
}

/// A transaction with the pledges it depends on. Never changed once built:
/// fresh pledge data means a fresh value.
#[derive(Clone, Debug)]
pub struct PledgedTransaction {
    pub transaction: TransactionRecord,
    pub foreign_pledges: Vec<SubstatePledge>,
    pub local_pledges: Vec<SubstatePledge>,
}

/// The pledges of transaction `t` in `store` that are local (`local`) or
/// foreign, or an error where the store does not know the transaction.
fn read_pledges(store: &PledgeStore, t: TransactionId, local: bool) -> (r: Result<Vec<SubstatePledge>, StorageError>)
    ensures
        store.transactions@.contains(t) ==> r == Ok::<Vec<SubstatePledge>, StorageError>(r.unwrap()) && r.unwrap()@ == pledges_of(store.pledges@, t, local),
        !store.transactions@.contains(t) ==> r == Err::<Vec<SubstatePledge>, StorageError>(StorageError::TransactionNotFound { transaction_id: t }),
{
    let mut known = false;
    let mut k: usize = 0;
    while k < store.transactions.len()
        invariant
            0 <= k <= store.transactions@.len(),
            known == exists|j: int| 0 <= j < k && store.transactions@[j] == t,
        decreases store.transactions@.len() - k,
    {
        if store.transactions[k] == t {
            known = true;
        }
        k = k + 1;
    }
    if !known {
        return Err(StorageError::TransactionNotFound { transaction_id: t });
    }
    let mut r: Vec<SubstatePledge> = Vec::new();
    let mut i: usize = 0;
    while i < store.pledges.len()
        invariant
            0 <= i <= store.pledges@.len(),
            r@ == pledges_of(store.pledges@.subrange(0, i as int), t, local),
        decreases store.pledges@.len() - i,
    {
        assert(store.pledges@.subrange(0, i + 1).drop_last() =~= store.pledges@.subrange(0, i as int));
        let rec = store.pledges[i];
        if rec.transaction_id == t && rec.is_local == local {
            r.push(rec.pledge);
        }
        i = i + 1;
    }
    assert(store.pledges@.subrange(0, store.pledges@.len() as int) =~= store.pledges@);
    Ok(r)
}

impl PledgedTransaction {
    fn new(
        prepared_transaction: TransactionRecord,
        local_pledges: Vec<SubstatePledge>,
        foreign_pledges: Vec<SubstatePledge>,
    ) -> (r: PledgedTransaction)
        ensures
            r.transaction == prepared_transaction,
            r.local_pledges@ == local_pledges@,
            r.foreign_pledges@ == foreign_pledges@,
    {
        PledgedTransaction { transaction: prepared_transaction, foreign_pledges, local_pledges }
    }

    pub fn id(&self) -> (r: TransactionId)
        ensures
            r == self.transaction.id,
    {
        self.transaction.id()
    }

    /// Reads the local and foreign pledges of `transaction` from `store`.
    /// Fails, building nothing, where the store does not know it; otherwise
    /// the result depends on the store's contents and the transaction alone.
    pub fn load_pledges(store: &PledgeStore, transaction: TransactionRecord) -> (r: Result<
        PledgedTransaction,
        StorageError,
    >)
        ensures
            load_pledges_result(store, transaction, r),
    {
        let local_pledges = match read_pledges(store, transaction.id(), true) {
            Ok(p) => p,
            Err(e) => {
                return Err(e);
            },
        };
        let foreign_pledges = match read_pledges(store, transaction.id(), false) {
            Ok(p) => p,
            Err(e) => {
                return Err(e);
            },
        };
        Ok(PledgedTransaction::new(transaction, local_pledges, foreign_pledges))
    }
}

/// Two loads from the same store contents for the same transaction give the
/// same outcome and the same local and foreign pledges.
pub proof fn lemma_load_pledges_deterministic(
    s1: &PledgeStore,
    s2: &PledgeStore,
    t: TransactionRecord,
    r1: Result<PledgedTransaction, StorageError>,
    r2: Result<PledgedTransaction, StorageError>,
)
    requires
        s1.transactions@ == s2.transactions@,
        s1.pledges@ == s2.pledges@,
        load_pledges_result(s1, t, r1),
        load_pledges_result(s2, t, r2),
    ensures
        r1 is Ok <==> r2 is Ok,
        r1 matches Err(e1) ==> r2 == Err::<PledgedTransaction, StorageError>(e1),
        r1 matches Ok(p1) ==> (r2 matches Ok(p2) && p1.transaction == p2.transaction
            && p1.local_pledges@ == p2.local_pledges@ && p1.foreign_pledges@ == p2.foreign_pledges@),
{
}

/// What `PledgedTransaction::load_pledges(store, t)` promises of its result `r`.
pub open spec fn load_pledges_result(
    store: &PledgeStore,
    t: TransactionRecord,
    r: Result<PledgedTransaction, StorageError>,
) -> bool {
    &&& store.transactions@.contains(t.id) <==> r is Ok
    &&& !store.transactions@.contains(t.id) ==> r == Err::<PledgedTransaction, StorageError>(
        StorageError::TransactionNotFound { transaction_id: t.id },
    )
    &&& r matches Ok(p) ==> p.transaction == t && p.local_pledges@ == pledges_of(
        store.pledges@,
        t.id,
        true,
    ) && p.foreign_pledges@ == pledges_of(store.pledges@, t.id, false)
}

} // verus!
