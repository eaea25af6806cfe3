//! The consensus data model: blocks, votes, quorum certificates, the high QC
//! pointer of each epoch, and the store that holds them.

use vstd::prelude::*;
use crate::epoch::Epoch;

verus! {

/// Identifier of a block.
pub type BlockId = u64;

/// Commitment to a validator's identity, used in committee membership proofs.
pub type LeafHash = u64;

/// Address of a validator node.
pub type Addr = u64;

/// Position of a validator in the shard space.
pub type ShardId = u64;

/// The outcome aggregated from votes.
#[derive(Copy, Clone, Debug, PartialEq, Eq, Structural, Hash)]
pub enum QuorumDecision {
    Accept,
    Reject,
}

/// A proposed unit of ordering. Never changed once created.
#[derive(Copy, Clone, Debug, PartialEq, Eq, Structural)]
pub struct Block {
    pub id: BlockId,
    pub height: u64,
    pub epoch: Epoch,
}

/// A signature together with the public key that made it, both held as
/// opaque values that only the signature service interprets.
#[derive(Copy, Clone, Debug, PartialEq, Eq, Structural)]
pub struct ValidatorSignature {
    pub public_key: u64,
    pub signature: u64,
}

/// One committee member's signed decision on one block.
#[derive(Copy, Clone, Debug, PartialEq, Eq, Structural)]
pub struct Vote {
    pub epoch: Epoch,
    pub block_id: BlockId,
    pub decision: QuorumDecision,
    pub sender_leaf_hash: LeafHash,
    pub signature: ValidatorSignature,
    /// Opaque handle of the sender's committee membership proof.
    pub merkle_proof: u64,
}

/// The votes of a quorum for one block, gathered into one certificate.
#[derive(Clone, Debug)]
pub struct QuorumCertificate {
    pub block_id: BlockId,
    pub block_height: u64,
    pub epoch: Epoch,
    pub signatures: Vec<ValidatorSignature>,
    /// The membership proofs of all voters, merged into one.
    pub merged_proof: Vec<u64>,
    pub leaf_hashes: Vec<LeafHash>,
    pub decision: QuorumDecision,
}

/// The QC of greatest height adopted for an epoch.
#[derive(Copy, Clone, Debug, PartialEq, Eq, Structural)]
pub struct HighQc {
    pub epoch: Epoch,
    pub block_id: BlockId,
    pub block_height: u64,
}

/// A failure of the store.
#[derive(Copy, Clone, Debug, PartialEq, Eq, Structural)]
pub enum StorageError {
    BlockNotFound { block_id: BlockId },
    TransactionNotFound { transaction_id: u64 },
}

/// The votes in `votes` for block `b`, in the order they were stored.
pub open spec fn votes_for(votes: Seq<Vote>, b: BlockId) -> Seq<Vote>
    decreases votes.len(),
{
    if votes.len() == 0 {
        seq![]
    } else if votes.last().block_id == b {
        votes_for(votes.drop_last(), b).push(votes.last())
    } else {
        votes_for(votes.drop_last(), b)
    }
}

/// Whether `votes` holds a vote by `sender` for block `b`.
pub open spec fn has_vote(votes: Seq<Vote>, b: BlockId, sender: LeafHash) -> bool {
    exists|i: int| 0 <= i < votes.len() && votes[i].block_id == b && votes[i].sender_leaf_hash == sender
}

/// Whether some certificate in `qcs` is for block `b`.
pub open spec fn has_qc(qcs: Seq<QuorumCertificate>, b: BlockId) -> bool {
    exists|i: int| 0 <= i < qcs.len() && qcs[i].block_id == b
}

/// Number of votes in `votes` with decision `d`.
pub open spec fn tally(votes: Seq<Vote>, d: QuorumDecision) -> nat
    decreases votes.len(),
{
    if votes.len() == 0 {
        0
    } else {
        tally(votes.drop_last(), d) + if votes.last().decision == d { 1nat } else { 0nat }
    }
}

/// The decision reached by `votes` under quorum threshold `t`: the side
/// that has at least `t` votes, `Accept` first, or none.
pub open spec fn decision_of(votes: Seq<Vote>, t: nat) -> Option<QuorumDecision> {
    if tally(votes, QuorumDecision::Accept) >= t {
        Some(QuorumDecision::Accept)
    } else if tally(votes, QuorumDecision::Reject) >= t {
        Some(QuorumDecision::Reject)
    } else {
        None
    }
}

/// Whether the blocks in `blocks` have distinct ids.
pub open spec fn distinct_block_ids(blocks: Seq<Block>) -> bool {
    forall|i: int, j: int|
        0 <= i < j < blocks.len() ==> #[trigger] blocks[i].id != #[trigger] blocks[j].id
}

/// Whether the certificates in `qcs` are for distinct blocks.
pub open spec fn distinct_qc_blocks(qcs: Seq<QuorumCertificate>) -> bool {
    forall|i: int, j: int|
        0 <= i < j < qcs.len() ==> #[trigger] qcs[i].block_id != #[trigger] qcs[j].block_id
}

/// Whether the high QCs in `h` are for distinct epochs.
pub open spec fn distinct_epochs(h: Seq<HighQc>) -> bool {
    forall|i: int, j: int| 0 <= i < j < h.len() ==> #[trigger] h[i].epoch != #[trigger] h[j].epoch
}

/// Whether no two votes in `votes` are by the same sender for the same block.
pub open spec fn one_vote_per_sender(votes: Seq<Vote>) -> bool {
    forall|i: int, j: int|
        0 <= i < j < votes.len() ==> !(#[trigger] votes[i].block_id == #[trigger] votes[j].block_id
            && votes[i].sender_leaf_hash == votes[j].sender_leaf_hash)
}

/// The block with id `id` in `blocks`, if any.
pub open spec fn block_of(blocks: Seq<Block>, id: BlockId) -> Option<Block> {
    if exists|i: int| 0 <= i < blocks.len() && blocks[i].id == id {
        let i = choose|i: int| 0 <= i < blocks.len() && blocks[i].id == id;
        Some(blocks[i])
    } else {
        None
    }
}

/// The votes after storing `v`: unchanged where its sender already voted on
/// its block, else with `v` appended.
pub open spec fn votes_after_save(votes: Seq<Vote>, v: Vote) -> Seq<Vote> {
    if has_vote(votes, v.block_id, v.sender_leaf_hash) {
        votes
    } else {
        votes.push(v)
    }
}

/// The high QCs after adopting a certificate for block `b` of height
/// `height` in epoch `e`: adopted where the epoch has none or one of a lower
/// height, else unchanged.
pub open spec fn adopts(h: Seq<HighQc>, e: Epoch, b: BlockId, height: u64) -> bool {
    match high_qc_of(h, e) {
        None => true,
        Some(cur) => cur.block_height < height,
    }
}

/// The high QC recorded for epoch `e`, if any.
pub open spec fn high_qc_of(high_qcs: Seq<HighQc>, e: Epoch) -> Option<HighQc> {
    if exists|i: int| 0 <= i < high_qcs.len() && high_qcs[i].epoch == e {
        let i = choose|i: int| 0 <= i < high_qcs.len() && high_qcs[i].epoch == e;
        Some(high_qcs[i])
    } else {
        None
    }
}

/// The durable state the vote handler works on. Every change to it is made
/// by one call of a method, which either makes the whole change or none.
pub struct StateStore {
    pub blocks: Vec<Block>,
    pub votes: Vec<Vote>,
    pub qcs: Vec<QuorumCertificate>,
    pub high_qcs: Vec<HighQc>,
}

impl StateStore {
    /// The store's invariant: block ids are unique, at most one vote per sender and block, at most
    /// one certificate per block and at most one high QC per epoch.
    pub open spec fn wf(&self) -> bool {
        &&& distinct_block_ids(self.blocks@)
        &&& one_vote_per_sender(self.votes@)
        &&& distinct_qc_blocks(self.qcs@)
        &&& distinct_epochs(self.high_qcs@)
    }

    pub fn new() -> (r: StateStore)
        ensures
            r.wf(),
            r.blocks@ == Seq::<Block>::empty(),
            r.votes@ == Seq::<Vote>::empty(),
            r.qcs@.len() == 0,
            r.high_qcs@ == Seq::<HighQc>::empty(),
    {
        StateStore { blocks: Vec::new(), votes: Vec::new(), qcs: Vec::new(), high_qcs: Vec::new() }
    }

    /// Adds `block` unless a block with its id is already stored; returns
    /// whether it was added.
    pub fn insert_block(&mut self, block: Block) -> (r: bool)
        requires
            old(self).wf(),
        ensures
            final(self).wf(),
            r == block_of(old(self).blocks@, block.id).is_none(),
            final(self).blocks@ == if r { old(self).blocks@.push(block) } else { old(self).blocks@ },
            final(self).votes@ == old(self).votes@,
            final(self).qcs@ == old(self).qcs@,
            final(self).high_qcs@ == old(self).high_qcs@,
    {
        match self.get_block(block.id) {
            Some(_) => false,
            None => {
                self.blocks.push(block);
                true
            },
        }
    }

    /// The stored block with id `id`.
    pub fn get_block(&self, id: BlockId) -> (r: Option<Block>)
        requires
            self.wf(),
        ensures
            r == block_of(self.blocks@, id),
    {
        let mut i: usize = 0;
        while i < self.blocks.len()
            invariant
                self.wf(),
                0 <= i <= self.blocks@.len(),
                forall|k: int| 0 <= k < i ==> #[trigger] self.blocks@[k].id != id,
            decreases self.blocks@.len() - i,
        {
            if self.blocks[i].id == id {
                let b = self.blocks[i];
                proof {
                    assert(self.blocks@[i as int].id == id);
                    let j = choose|j: int| 0 <= j < self.blocks@.len() && self.blocks@[j].id == id;
                    if j < i {
                        assert(self.blocks@[j].id != id);
                    } else if j > i {
                        assert(self.blocks@[i as int].id == self.blocks@[j].id);
                    }
                }
                return Some(b);
            }
            i = i + 1;
        }
        None
    }

    /// Whether the sender with leaf hash `sender` has a stored vote on block `b`.
    pub fn has_vote_from(&self, b: BlockId, sender: LeafHash) -> (r: bool)
        ensures
            r == has_vote(self.votes@, b, sender),
    {
        let mut i: usize = 0;
        while i < self.votes.len()
            invariant
                0 <= i <= self.votes@.len(),
                forall|k: int|
                    0 <= k < i ==> !(#[trigger] self.votes@[k].block_id == b
                        && self.votes@[k].sender_leaf_hash == sender),
            decreases self.votes@.len() - i,
        {
            if self.votes[i].block_id == b && self.votes[i].sender_leaf_hash == sender {
                return true;
            }
            i = i + 1;
        }
        false
    }

    /// Stores `vote`, unless its sender already has a vote on its block.
    pub fn save_vote(&mut self, vote: Vote)
        requires
            old(self).wf(),
        ensures
            final(self).wf(),
            final(self).votes@ == votes_after_save(old(self).votes@, vote),
            final(self).blocks@ == old(self).blocks@,
            final(self).qcs@ == old(self).qcs@,
            final(self).high_qcs@ == old(self).high_qcs@,
    {
        if !self.has_vote_from(vote.block_id, vote.sender_leaf_hash) {
            self.votes.push(vote);
        }
    }

    /// The stored votes on block `b`, in the order they were stored.
    pub fn get_votes(&self, b: BlockId) -> (r: Vec<Vote>)
        ensures
            r@ == votes_for(self.votes@, b),
    {
        let mut r: Vec<Vote> = Vec::new();
        let mut i: usize = 0;
        while i < self.votes.len()
            invariant
                0 <= i <= self.votes@.len(),
                r@ == votes_for(self.votes@.subrange(0, i as int), b),
            decreases self.votes@.len() - i,
        {
            assert(self.votes@.subrange(0, i + 1).drop_last() =~= self.votes@.subrange(0, i as int));
            if self.votes[i].block_id == b {
                r.push(self.votes[i]);
            }
            i = i + 1;
        }
        assert(self.votes@.subrange(0, self.votes@.len() as int) =~= self.votes@);
        r
    }

    /// Number of stored votes on block `b`.
    pub fn count_for_block(&self, b: BlockId) -> (r: usize)
        ensures
            r == votes_for(self.votes@, b).len(),
    {
        let mut r: usize = 0;
        let mut i: usize = 0;
        while i < self.votes.len()
            invariant
                0 <= i <= self.votes@.len(),
                r == votes_for(self.votes@.subrange(0, i as int), b).len(),
                r <= i,
            decreases self.votes@.len() - i,
        {
            assert(self.votes@.subrange(0, i + 1).drop_last() =~= self.votes@.subrange(0, i as int));
            if self.votes[i].block_id == b {
                r = r + 1;
            }
            i = i + 1;
        }
        assert(self.votes@.subrange(0, self.votes@.len() as int) =~= self.votes@);
        r
    }

    /// Whether a certificate for block `b` is stored.
    pub fn has_qc_for(&self, b: BlockId) -> (r: bool)
        ensures
            r == has_qc(self.qcs@, b),
    {
        let mut i: usize = 0;
        while i < self.qcs.len()
            invariant
                0 <= i <= self.qcs@.len(),
                forall|k: int| 0 <= k < i ==> #[trigger] self.qcs@[k].block_id != b,
            decreases self.qcs@.len() - i,
        {
            if self.qcs[i].block_id == b {
                return true;
            }
            i = i + 1;
        }
        false
    }

    /// The high QC of epoch `e`, with its position among the stored ones.
    fn find_high_qc(&self, e: Epoch) -> (r: Option<usize>)
        requires
            self.wf(),
        ensures
            match r {
                Some(i) => i < self.high_qcs@.len() && self.high_qcs@[i as int].epoch == e
                    && high_qc_of(self.high_qcs@, e) == Some(self.high_qcs@[i as int]),
                None => high_qc_of(self.high_qcs@, e).is_none(),
            },
    {
        let mut i: usize = 0;
        while i < self.high_qcs.len()
            invariant
                self.wf(),
                0 <= i <= self.high_qcs@.len(),
                forall|k: int| 0 <= k < i ==> #[trigger] self.high_qcs@[k].epoch != e,
            decreases self.high_qcs@.len() - i,
        {
            if self.high_qcs[i].epoch == e {
                proof {
                    lemma_high_qc_at(self.high_qcs@, i as int);
                }
                return Some(i);
            }
            i = i + 1;
        }
        None
    }

    /// The high QC of epoch `e`, if one was adopted.
    pub fn get_high_qc(&self, e: Epoch) -> (r: Option<HighQc>)
        requires
            self.wf(),
        ensures
            r == high_qc_of(self.high_qcs@, e),
    {
        match self.find_high_qc(e) {
            Some(i) => Some(self.high_qcs[i]),
            None => None,
        }
    }

    /// Stores `qc`, a certificate for a block that has none yet, and adopts it
    /// as the high QC of its epoch where it is higher than the current one.
    pub fn update_high_qc(&mut self, qc: QuorumCertificate)
        requires
            old(self).wf(),
            !has_qc(old(self).qcs@, qc.block_id),
        ensures
            final(self).wf(),
            final(self).qcs@ == old(self).qcs@.push(qc),
            final(self).blocks@ == old(self).blocks@,
            final(self).votes@ == old(self).votes@,
            high_qc_of(final(self).high_qcs@, qc.epoch) == if adopts(
                old(self).high_qcs@,
                qc.epoch,
                qc.block_id,
                qc.block_height,
            ) {
                Some(HighQc { epoch: qc.epoch, block_id: qc.block_id, block_height: qc.block_height })
            } else {
                high_qc_of(old(self).high_qcs@, qc.epoch)
            },
            forall|e: Epoch|
                e != qc.epoch ==> #[trigger] high_qc_of(final(self).high_qcs@, e) == high_qc_of(
                    old(self).high_qcs@,
                    e,
                ),
    {
        let h = HighQc { epoch: qc.epoch, block_id: qc.block_id, block_height: qc.block_height };
        let e = qc.epoch;
        let height = qc.block_height;
        proof {
            assert forall|i: int| 0 <= i < self.qcs@.len() implies #[trigger] self.qcs@[i].block_id
                != qc.block_id by {}
        }
        self.qcs.push(qc);
        let ghost prev = self.high_qcs@;
        match self.find_high_qc(e) {
            None => {
                self.high_qcs.push(h);
                proof {
                    assert forall|a: int, b: int|
                        0 <= a < b < self.high_qcs@.len() implies #[trigger] self.high_qcs@[a].epoch
                        != #[trigger] self.high_qcs@[b].epoch by {
                        if b < prev.len() {
                            assert(prev[a].epoch != prev[b].epoch);
                        } else {
                            assert(prev[a].epoch != e);
                        }
                    }
                    lemma_high_qc_at(self.high_qcs@, prev.len() as int);
                    assert forall|e2: Epoch| e2 != e implies #[trigger] high_qc_of(self.high_qcs@, e2)
                        == high_qc_of(prev, e2) by {
                        lemma_high_qc_same(prev, self.high_qcs@, e2);
                    }
                }
            },
            Some(i) => {
                if self.high_qcs[i].block_height < height {
                    self.high_qcs.set(i, h);
                    proof {
                        assert forall|a: int, b: int|
                            0 <= a < b < self.high_qcs@.len() implies #[trigger] self.high_qcs@[a].epoch
                            != #[trigger] self.high_qcs@[b].epoch by {
                            assert(prev[a].epoch != prev[b].epoch);
                        }
                        lemma_high_qc_at(self.high_qcs@, i as int);
                        assert forall|e2: Epoch| e2 != e implies #[trigger] high_qc_of(
                            self.high_qcs@,
                            e2,
                        ) == high_qc_of(prev, e2) by {
                            lemma_high_qc_same(prev, self.high_qcs@, e2);
                        }
                    }
                }
            },
        }
    }
}

/// The high QC of the epoch at position `i` is the one stored there.
proof fn lemma_high_qc_at(h: Seq<HighQc>, i: int)
    requires
        distinct_epochs(h),
        0 <= i < h.len(),
    ensures
        high_qc_of(h, h[i].epoch) == Some(h[i]),
{
    let e = h[i].epoch;
    let j = choose|j: int| 0 <= j < h.len() && h[j].epoch == e;
    if j < i {
        assert(h[j].epoch != h[i].epoch);
    } else if j > i {
        assert(h[i].epoch != h[j].epoch);
    }
}

/// Two well-formed high QC lists that agree on the entries of epoch `e`
/// give the same high QC for it.
proof fn lemma_high_qc_same(a: Seq<HighQc>, b: Seq<HighQc>, e: Epoch)
    requires
        distinct_epochs(a),
        distinct_epochs(b),
        forall|i: int| 0 <= i < b.len() && #[trigger] b[i].epoch == e ==> i < a.len() && a[i] == b[i],
        forall|i: int| 0 <= i < a.len() && #[trigger] a[i].epoch == e ==> i < b.len() && a[i] == b[i],
    ensures
        high_qc_of(a, e) == high_qc_of(b, e),
{
    if exists|i: int| 0 <= i < a.len() && a[i].epoch == e {
        let i = choose|i: int| 0 <= i < a.len() && a[i].epoch == e;
        lemma_high_qc_at(a, i);
        lemma_high_qc_at(b, i);
    } else if exists|i: int| 0 <= i < b.len() && b[i].epoch == e {
        let i = choose|i: int| 0 <= i < b.len() && b[i].epoch == e;
        lemma_high_qc_at(b, i);
    }
}

} // verus!
