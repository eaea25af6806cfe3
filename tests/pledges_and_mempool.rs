use dan_consensus::consensus_models::StorageError;
use dan_consensus::mempool::{involved_shards, shard_events, MempoolService, Transaction};
use dan_consensus::pledged::{PledgeRecord, PledgeStore, PledgedTransaction, SubstatePledge, TransactionRecord};

fn pledge(id: u64, shard: u64) -> SubstatePledge {
    SubstatePledge { substate_id: id, version: 1, shard }
}

fn store() -> PledgeStore {
    PledgeStore {
        transactions: vec![1, 2],
        pledges: vec![
            PledgeRecord { transaction_id: 1, pledge: pledge(10, 0), is_local: true },
            PledgeRecord { transaction_id: 2, pledge: pledge(20, 0), is_local: true },
            PledgeRecord { transaction_id: 1, pledge: pledge(11, 5), is_local: false },
            PledgeRecord { transaction_id: 1, pledge: pledge(12, 0), is_local: true },
        ],
    }
}

#[test]
fn load_pledges_splits_local_and_foreign() {
    let p = PledgedTransaction::load_pledges(&store(), TransactionRecord { id: 1 }).unwrap();
    assert_eq!(p.id(), 1);
    assert_eq!(p.local_pledges, vec![pledge(10, 0), pledge(12, 0)]);
    assert_eq!(p.foreign_pledges, vec![pledge(11, 5)]);
}

#[test]
fn load_pledges_twice_is_identical() {
    let s = store();
    let a = PledgedTransaction::load_pledges(&s, TransactionRecord { id: 1 }).unwrap();
    let b = PledgedTransaction::load_pledges(&s, TransactionRecord { id: 1 }).unwrap();
    assert_eq!(a.local_pledges, b.local_pledges);
    assert_eq!(a.foreign_pledges, b.foreign_pledges);
}

#[test]
fn load_pledges_of_unknown_transaction_fails() {
    let r = PledgedTransaction::load_pledges(&store(), TransactionRecord { id: 3 });
    assert_eq!(r.unwrap_err(), StorageError::TransactionNotFound { transaction_id: 3 });
}

#[test]
fn load_pledges_without_pledges_is_empty() {
    let p = PledgedTransaction::load_pledges(&PledgeStore { transactions: vec![4], pledges: vec![] }, TransactionRecord { id: 4 }).unwrap();
    assert!(p.local_pledges.is_empty());
    assert!(p.foreign_pledges.is_empty());
}

#[test]
fn fan_out_one_event_per_shard() {
    let t = Transaction { id: 9, inputs: vec![1, 2, 1], outputs: vec![3, 2] };
    assert_eq!(involved_shards(&t), vec![1, 2, 3]);
    assert_eq!(shard_events(&t), vec![(9, 1), (9, 2), (9, 3)]);
}

#[test]
fn fan_out_no_shards() {
    let t = Transaction { id: 9, inputs: vec![], outputs: vec![] };
    assert!(shard_events(&t).is_empty());
}

#[test]
fn mempool_remembers_each_transaction_once() {
    let mut m = MempoolService::new();
    let t = Transaction { id: 9, inputs: vec![4], outputs: vec![5] };
    assert_eq!(m.handle_new_transaction(&t), vec![(9, 4), (9, 5)]);
    assert!(m.contains(9));
    assert_eq!(m.handle_new_transaction(&t), vec![(9, 4), (9, 5)]);
    assert!(m.contains(9));
    assert!(!m.contains(8));
}
