use dan_consensus::consensus_models::{
    Block, QuorumDecision, StateStore, StorageError, ValidatorSignature,
};
use dan_consensus::epoch::Epoch;
use dan_consensus::on_receive_vote::{
    calculate_threshold_decision, CommitteeShard, HotStuffError, OnReceiveVoteHandler,
    VoteContext, VoteMessage, VoteOutcome,
};

const BLOCK: u64 = 77;

fn handler_with_block() -> OnReceiveVoteHandler {
    let mut store = StateStore::new();
    assert!(store.insert_block(Block { id: BLOCK, height: 5, epoch: Epoch(1) }));
    OnReceiveVoteHandler::new(store)
}

// A committee of four: addresses 1..=4, threshold 3.
fn ctx(sender: u64) -> VoteContext {
    VoteContext {
        committee: vec![1, 2, 3, 4],
        is_leader: true,
        committee_shard: CommitteeShard { shard_start: 0, shard_end: 100, num_members: 4 },
        sender_shard_key: 10,
        sender_leaf_hash: 1000 + sender,
        signature_valid: true,
    }
}

fn msg(block_id: u64, decision: QuorumDecision, sender: u64) -> VoteMessage {
    VoteMessage {
        epoch: Epoch(1),
        block_id,
        decision,
        signature: ValidatorSignature { public_key: sender, signature: 500 + sender },
        merkle_proof: 900 + sender,
    }
}

fn vote(h: &mut OnReceiveVoteHandler, sender: u64, d: QuorumDecision) -> Result<VoteOutcome, HotStuffError> {
    h.handle(sender, msg(BLOCK, d, sender), &ctx(sender))
}

#[test]
fn quorum_threshold_of_committees() {
    assert_eq!(CommitteeShard { shard_start: 0, shard_end: 0, num_members: 4 }.quorum_threshold(), 3);
    assert_eq!(CommitteeShard { shard_start: 0, shard_end: 0, num_members: 7 }.quorum_threshold(), 5);
    assert_eq!(CommitteeShard { shard_start: 0, shard_end: 0, num_members: 1 }.quorum_threshold(), 1);
    assert_eq!(CommitteeShard { shard_start: 0, shard_end: 0, num_members: 0 }.quorum_threshold(), 0);
}

#[test]
fn threshold_accept_forms_qc() {
    let mut h = handler_with_block();
    assert_eq!(vote(&mut h, 1, QuorumDecision::Accept), Ok(VoteOutcome::Recorded { count: 1 }));
    assert_eq!(vote(&mut h, 2, QuorumDecision::Accept), Ok(VoteOutcome::Recorded { count: 2 }));
    assert!(h.store.qcs.is_empty());
    assert_eq!(vote(&mut h, 3, QuorumDecision::Accept), Ok(VoteOutcome::QcFormed));
    assert_eq!(h.store.qcs.len(), 1);
    let qc = &h.store.qcs[0];
    assert_eq!(qc.block_id, BLOCK);
    assert_eq!(qc.block_height, 5);
    assert_eq!(qc.decision, QuorumDecision::Accept);
    assert_eq!(qc.leaf_hashes, vec![1001, 1002, 1003]);
    assert_eq!(qc.merged_proof, vec![901, 902, 903]);
    assert_eq!(qc.signatures.len(), 3);
    let high = h.store.get_high_qc(Epoch(1)).unwrap();
    assert_eq!(high.block_id, BLOCK);
    assert_eq!(high.block_height, 5);
}

#[test]
fn reject_quorum_forms_reject_qc() {
    let mut h = handler_with_block();
    for s in 1..=3 {
        vote(&mut h, s, QuorumDecision::Reject).unwrap();
    }
    assert_eq!(h.store.qcs.len(), 1);
    assert_eq!(h.store.qcs[0].decision, QuorumDecision::Reject);
}

#[test]
fn conflicting_votes_stall() {
    // Four members, threshold three: two accept and two reject decide nothing.
    let mut h = handler_with_block();
    assert_eq!(vote(&mut h, 1, QuorumDecision::Accept), Ok(VoteOutcome::Recorded { count: 1 }));
    assert_eq!(vote(&mut h, 2, QuorumDecision::Accept), Ok(VoteOutcome::Recorded { count: 2 }));
    assert_eq!(vote(&mut h, 3, QuorumDecision::Reject), Ok(VoteOutcome::Undecided));
    assert_eq!(vote(&mut h, 4, QuorumDecision::Reject), Ok(VoteOutcome::Undecided));
    assert!(h.store.qcs.is_empty());
    assert_eq!(h.store.count_for_block(BLOCK), 4);
    assert!(h.store.get_high_qc(Epoch(1)).is_none());
}

#[test]
fn threshold_decision_split_is_undecided() {
    let mut h = handler_with_block();
    vote(&mut h, 1, QuorumDecision::Accept).unwrap();
    vote(&mut h, 2, QuorumDecision::Reject).unwrap();
    let votes = h.store.get_votes(BLOCK);
    assert_eq!(calculate_threshold_decision(&votes, 2), None);
    assert_eq!(calculate_threshold_decision(&votes, 1), Some(QuorumDecision::Accept));
}

#[test]
fn non_committee_sender_is_rejected() {
    let mut h = handler_with_block();
    let r = vote(&mut h, 9, QuorumDecision::Accept);
    assert_eq!(r, Err(HotStuffError::ReceivedMessageFromNonCommitteeMember { epoch: Epoch(1), sender: 9 }));
    assert!(h.store.votes.is_empty());
}

#[test]
fn sender_outside_shard_range_is_rejected() {
    let mut h = handler_with_block();
    let mut c = ctx(1);
    c.sender_shard_key = 101;
    let r = h.handle(1, msg(BLOCK, QuorumDecision::Accept, 1), &c);
    assert_eq!(r, Err(HotStuffError::ReceivedMessageFromNonCommitteeMember { epoch: Epoch(1), sender: 1 }));
    assert!(h.store.votes.is_empty());
}

#[test]
fn not_the_leader_is_rejected() {
    let mut h = handler_with_block();
    let mut c = ctx(1);
    c.is_leader = false;
    let r = h.handle(1, msg(BLOCK, QuorumDecision::Accept, 1), &c);
    assert_eq!(r, Err(HotStuffError::NotTheLeader { block_id: BLOCK }));
    assert!(h.store.votes.is_empty());
}

#[test]
fn invalid_signature_is_rejected() {
    let mut h = handler_with_block();
    let mut c = ctx(2);
    c.signature_valid = false;
    let r = h.handle(2, msg(BLOCK, QuorumDecision::Accept, 2), &c);
    assert_eq!(r, Err(HotStuffError::InvalidVoteSignature { signer_public_key: 2 }));
    assert!(h.store.votes.is_empty());
}

#[test]
fn unknown_block_is_an_error() {
    let mut h = handler_with_block();
    let r = h.handle(1, msg(5, QuorumDecision::Accept, 1), &ctx(1));
    assert_eq!(r, Err(HotStuffError::StorageError(StorageError::BlockNotFound { block_id: 5 })));
    assert!(h.store.votes.is_empty());
}

#[test]
fn duplicate_votes_count_once() {
    let mut h = handler_with_block();
    vote(&mut h, 1, QuorumDecision::Accept).unwrap();
    assert_eq!(vote(&mut h, 1, QuorumDecision::Accept), Ok(VoteOutcome::Recorded { count: 1 }));
    assert_eq!(vote(&mut h, 1, QuorumDecision::Accept), Ok(VoteOutcome::Recorded { count: 1 }));
    assert_eq!(h.store.votes.len(), 1);
    assert!(h.store.qcs.is_empty());
}

#[test]
fn later_votes_do_not_form_second_qc() {
    let mut h = handler_with_block();
    for s in 1..=3 {
        vote(&mut h, s, QuorumDecision::Accept).unwrap();
    }
    assert_eq!(vote(&mut h, 4, QuorumDecision::Accept), Ok(VoteOutcome::AlreadyCertified));
    assert_eq!(h.store.count_for_block(BLOCK), 4);
    assert_eq!(h.store.qcs.len(), 1);
    assert_eq!(h.store.qcs[0].leaf_hashes.len(), 3);
    assert_eq!(h.store.get_high_qc(Epoch(1)).unwrap().block_id, BLOCK);
}

#[test]
fn high_qc_does_not_regress() {
    let mut store = StateStore::new();
    assert!(store.insert_block(Block { id: 1, height: 10, epoch: Epoch(1) }));
    assert!(store.insert_block(Block { id: 2, height: 4, epoch: Epoch(1) }));
    assert!(!store.insert_block(Block { id: 2, height: 9, epoch: Epoch(1) }));
    let mut h = OnReceiveVoteHandler::new(store);
    for s in 1..=3 {
        h.handle(s, msg(1, QuorumDecision::Accept, s), &ctx(s)).unwrap();
    }
    assert_eq!(h.store.get_high_qc(Epoch(1)).unwrap().block_height, 10);
    for s in 1..=3 {
        h.handle(s, msg(2, QuorumDecision::Accept, s), &ctx(s)).unwrap();
    }
    // The lower block gets its certificate, but the high QC stays put.
    assert_eq!(h.store.qcs.len(), 2);
    let high = h.store.get_high_qc(Epoch(1)).unwrap();
    assert_eq!(high.block_id, 1);
    assert_eq!(high.block_height, 10);
    // A fourth vote on the lower block forms nothing more.
    assert_eq!(h.handle(4, msg(2, QuorumDecision::Accept, 4), &ctx(4)), Ok(VoteOutcome::AlreadyCertified));
    assert_eq!(h.store.qcs.len(), 2);
}
