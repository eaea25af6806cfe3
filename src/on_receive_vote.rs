//! Reception of votes: validation, storage, counting, and the forming of a
//! quorum certificate once a quorum of the committee has voted on a block.

use vstd::prelude::*;
use crate::consensus_models::{
    Addr, Block, BlockId, LeafHash, QuorumCertificate, QuorumDecision, ShardId, StateStore,
    StorageError, ValidatorSignature, Vote, block_of, decision_of, has_qc, high_qc_of, tally,
    votes_after_save, votes_for,
};
use crate::epoch::Epoch;

verus! {

/// The part of the shard space a local committee serves, and its size.
#[derive(Copy, Clone, Debug, PartialEq, Eq, Structural)]
pub struct CommitteeShard {
    pub shard_start: ShardId,
    pub shard_end: ShardId,
    pub num_members: u32,
}

impl CommitteeShard {
    /// Most members that may fail while the committee stays safe.
    pub open spec fn spec_max_failures(self) -> nat {
        if self.num_members == 0 {
            0
        } else {
            ((self.num_members - 1) / 3) as nat
        }
    }

    /// Fewest matching votes that form a quorum.
    pub open spec fn spec_quorum_threshold(self) -> nat {
        (self.num_members - self.spec_max_failures()) as nat
    }

    pub fn max_failures(&self) -> (r: u32)
        ensures
            r == self.spec_max_failures(),
    {
        if self.num_members == 0 {
            0
        } else {
            (self.num_members - 1) / 3
        }
    }

    pub fn quorum_threshold(&self) -> (r: u32)
        ensures
            r == self.spec_quorum_threshold(),
    {
        self.num_members - self.max_failures()
    }

    /// Whether `shard` lies in the committee's part of the shard space.
    pub fn includes_shard(&self, shard: ShardId) -> (r: bool)
        ensures
            r == (self.shard_start <= shard && shard <= self.shard_end),
    {
        self.shard_start <= shard && shard <= self.shard_end
    }
}

/// A vote as it arrives from a peer.
#[derive(Copy, Clone, Debug, PartialEq, Eq, Structural)]
pub struct VoteMessage {
    pub epoch: Epoch,
    pub block_id: BlockId,
    pub decision: QuorumDecision,
    pub signature: ValidatorSignature,
    pub merkle_proof: u64,
}

/// What the node's collaborators report about a vote before it is handled:
/// the epoch manager (committee, committee shard, the sender's registration),
/// the leader strategy (at round 0) and the signature service.
pub struct VoteContext {
    /// The local committee of the vote's epoch.
    pub committee: Vec<Addr>,
    /// Whether this node is the leader for the voted block.
    pub is_leader: bool,
    /// The local committee's shard range and size in the vote's epoch.
    pub committee_shard: CommitteeShard,
    /// The shard key the sender is registered with.
    pub sender_shard_key: ShardId,
    /// The sender's leaf hash.
    pub sender_leaf_hash: LeafHash,
    /// Whether the vote's signature verifies against the challenge built
    /// from the sender's leaf hash, the block id and the decision.
    pub signature_valid: bool,
}

/// Why a vote was refused.
#[derive(Copy, Clone, Debug, PartialEq, Eq, Structural)]
pub enum HotStuffError {
    ReceivedMessageFromNonCommitteeMember { epoch: Epoch, sender: Addr },
    NotTheLeader { block_id: BlockId },
    InvalidVoteSignature { signer_public_key: u64 },
    StorageError(StorageError),
}

/// What became of an accepted vote.
#[derive(Copy, Clone, Debug, PartialEq, Eq, Structural)]
pub enum VoteOutcome {
    /// Stored; the block has `count` votes, fewer than a quorum.
    Recorded { count: u64 },
    /// Stored; the block already has a certificate.
    AlreadyCertified,
    /// Stored; a quorum voted but neither decision has enough votes.
    Undecided,
    /// Stored, and a new certificate was formed: block production should be
    /// woken (a beat).
    QcFormed,
}

/// Whether `committee` holds `a`.
pub open spec fn in_committee(committee: Seq<Addr>, a: Addr) -> bool {
    exists|i: int| 0 <= i < committee.len() && committee[i] == a
}

/// The stored form of `m`, sent by the holder of leaf hash `leaf`.
pub open spec fn vote_of(m: VoteMessage, leaf: LeafHash) -> Vote {
    Vote {
        epoch: m.epoch,
        block_id: m.block_id,
        decision: m.decision,
        sender_leaf_hash: leaf,
        signature: m.signature,
        merkle_proof: m.merkle_proof,
    }
}

/// The error with which a vote is refused before anything is stored, if any.
pub open spec fn rejection(
    from: Addr,
    m: VoteMessage,
    committee: Seq<Addr>,
    is_leader: bool,
    cs: CommitteeShard,
    sender_shard: ShardId,
    signature_valid: bool,
) -> Option<HotStuffError> {
    if !in_committee(committee, from) {
        Some(HotStuffError::ReceivedMessageFromNonCommitteeMember { epoch: m.epoch, sender: from })
    } else if !is_leader {
        Some(HotStuffError::NotTheLeader { block_id: m.block_id })
    } else if !(cs.shard_start <= sender_shard && sender_shard <= cs.shard_end) {
        Some(HotStuffError::ReceivedMessageFromNonCommitteeMember { epoch: m.epoch, sender: from })
    } else if !signature_valid {
        Some(HotStuffError::InvalidVoteSignature { signer_public_key: m.signature.public_key })
    } else {
        None
    }
}

/// The decision of `votes` under quorum threshold `threshold`.
pub fn calculate_threshold_decision(votes: &Vec<Vote>, threshold: u32) -> (r: Option<
    QuorumDecision,
>)
    ensures
        r == decision_of(votes@, threshold as nat),
{
    let mut count_accept: usize = 0;
    let mut count_reject: usize = 0;
    let mut i: usize = 0;
    while i < votes.len()
        invariant
            0 <= i <= votes@.len(),
            count_accept == tally(votes@.subrange(0, i as int), QuorumDecision::Accept),
            count_reject == tally(votes@.subrange(0, i as int), QuorumDecision::Reject),
            count_accept + count_reject == i,
        decreases votes@.len() - i,
    {
        assert(votes@.subrange(0, i + 1).drop_last() =~= votes@.subrange(0, i as int));
        match votes[i].decision {
            QuorumDecision::Accept => count_accept = count_accept + 1,
            QuorumDecision::Reject => count_reject = count_reject + 1,
        }
        i = i + 1;
    }
    assert(votes@.subrange(0, votes@.len() as int) =~= votes@);
    if count_accept >= threshold as usize {
        return Some(QuorumDecision::Accept);
    }
    if count_reject >= threshold as usize {
        return Some(QuorumDecision::Reject);
    }
    None
}

/// Whether `s` already holds a certificate for block `b`, or points the high
/// QC of the block's epoch at it.
pub open spec fn already_certified(s: &StateStore, b: Block) -> bool {
    has_qc(s.qcs@, b.id) || match high_qc_of(s.high_qcs@, b.epoch) {
        Some(h) => h.block_id == b.id,
        None => false,
    }
}

/// Whether `qc` is the certificate for block `b` built from `votes` with
/// decision `d`: one signature, leaf hash and membership proof per vote.
pub open spec fn qc_from_votes(qc: QuorumCertificate, b: Block, votes: Seq<Vote>, d: QuorumDecision) -> bool {
    &&& qc.block_id == b.id
    &&& qc.block_height == b.height
    &&& qc.epoch == b.epoch
    &&& qc.decision == d
    &&& qc.signatures@ == votes.map_values(|v: Vote| v.signature)
    &&& qc.leaf_hashes@ == votes.map_values(|v: Vote| v.sender_leaf_hash)
    &&& qc.merged_proof@ == votes.map_values(|v: Vote| v.merkle_proof)
}

/// Whether, in every epoch, the high QC of `b` is at least as high as that
/// of `a`.
pub open spec fn high_qcs_advance(a: &StateStore, b: &StateStore) -> bool {
    forall|e: Epoch|
        #[trigger] high_qc_of(a.high_qcs@, e) matches Some(h) ==> (high_qc_of(b.high_qcs@, e) matches Some(h2)
            && h2.block_height >= h.block_height)
}

/// Whether the two stores hold the same data.
pub open spec fn same_store(a: &StateStore, b: &StateStore) -> bool {
    &&& a.blocks@ == b.blocks@
    &&& a.votes@ == b.votes@
    &&& a.qcs@ == b.qcs@
    &&& a.high_qcs@ == b.high_qcs@
}

/// Handles votes sent to this node, which aggregates them into certificates
/// for the blocks it leads.
pub struct OnReceiveVoteHandler {
    pub store: StateStore,
}

impl OnReceiveVoteHandler {
    pub fn new(store: StateStore) -> (r: OnReceiveVoteHandler)
        ensures
            r.store == store,
    {
        OnReceiveVoteHandler { store }
    }

    /// Handles a vote on `message.block_id` from `from`.
    ///
    /// The vote is refused, with nothing stored, where the sender is not in
    /// the local committee, this node does not lead the block, the sender's
    /// shard lies outside the committee's range, the signature does not
    /// verify, or the block is unknown. Otherwise it is stored (once per
    /// sender and block) and counted; once a quorum has voted on a block
    /// that has no certificate yet, and one decision has a quorum, a
    /// certificate is formed and adopted as the epoch's high QC where it is
    /// higher than the current one.
    pub fn handle(&mut self, from: Addr, message: VoteMessage, ctx: &VoteContext) -> (r: Result<
        VoteOutcome,
        HotStuffError,
    >)
        requires
            old(self).store.wf(),
        ensures
            final(self).store.wf(),
            final(self).store.blocks@ == old(self).store.blocks@,
            high_qcs_advance(&old(self).store, &final(self).store),
            ({
                let rej = rejection(
                    from,
                    message,
                    ctx.committee@,
                    ctx.is_leader,
                    ctx.committee_shard,
                    ctx.sender_shard_key,
                    ctx.signature_valid,
                );
                let t = ctx.committee_shard.spec_quorum_threshold();
                let s0 = &old(self).store;
                let s1 = &final(self).store;
                if rej is Some {
                    r == Err::<VoteOutcome, HotStuffError>(rej.unwrap()) && same_store(s0, s1)
                } else if block_of(s0.blocks@, message.block_id) is None {
                    r == Err::<VoteOutcome, HotStuffError>(
                        HotStuffError::StorageError(
                            StorageError::BlockNotFound { block_id: message.block_id },
                        ),
                    ) && same_store(s0, s1)
                } else {
                    let b = block_of(s0.blocks@, message.block_id).unwrap();
                    let votes = votes_after_save(s0.votes@, vote_of(message, ctx.sender_leaf_hash));
                    let mine = votes_for(votes, b.id);
                    &&& s1.votes@ == votes
                    &&& if mine.len() < t {
                        r == Ok::<VoteOutcome, HotStuffError>(
                            VoteOutcome::Recorded { count: mine.len() as u64 },
                        ) && s1.qcs@ == s0.qcs@ && s1.high_qcs@ == s0.high_qcs@
                    } else if already_certified(s0, b) {
                        r == Ok::<VoteOutcome, HotStuffError>(VoteOutcome::AlreadyCertified)
                            && s1.qcs@ == s0.qcs@ && s1.high_qcs@ == s0.high_qcs@
                    } else if decision_of(mine, t) is None {
                        r == Ok::<VoteOutcome, HotStuffError>(VoteOutcome::Undecided)
                            && s1.qcs@ == s0.qcs@ && s1.high_qcs@ == s0.high_qcs@
                    } else {
                        &&& r == Ok::<VoteOutcome, HotStuffError>(VoteOutcome::QcFormed)
                        &&& s1.qcs@.len() == s0.qcs@.len() + 1
                        &&& s1.qcs@.drop_last() == s0.qcs@
                        &&& qc_from_votes(s1.qcs@.last(), b, mine, decision_of(mine, t).unwrap())
                    }
                }
            }),
    {
        if !contains_addr(&ctx.committee, from) {
            return Err(HotStuffError::ReceivedMessageFromNonCommitteeMember {
                epoch: message.epoch,
                sender: from,
            });
        }
        if !ctx.is_leader {
            return Err(HotStuffError::NotTheLeader { block_id: message.block_id });
        }
        if !ctx.committee_shard.includes_shard(ctx.sender_shard_key) {
            return Err(HotStuffError::ReceivedMessageFromNonCommitteeMember {
                epoch: message.epoch,
                sender: from,
            });
        }
        if !ctx.signature_valid {
            return Err(HotStuffError::InvalidVoteSignature {
                signer_public_key: message.signature.public_key,
            });
        }
        let block = match self.store.get_block(message.block_id) {
            Some(b) => b,
            None => {
                return Err(
                    HotStuffError::StorageError(
                        StorageError::BlockNotFound { block_id: message.block_id },
                    ),
                );
            },
        };
        let vote = Vote {
            epoch: message.epoch,
            block_id: message.block_id,
            decision: message.decision,
            sender_leaf_hash: ctx.sender_leaf_hash,
            signature: message.signature,
            merkle_proof: message.merkle_proof,
        };
        self.store.save_vote(vote);
        let count = self.store.count_for_block(message.block_id);
        let threshold = ctx.committee_shard.quorum_threshold();

        // Only the vote that completes a quorum forms the certificate; later
        // votes are stored but not included.
        if count < threshold as usize {
            return Ok(VoteOutcome::Recorded { count: count as u64 });
        }
        if self.store.has_qc_for(block.id) {
            return Ok(VoteOutcome::AlreadyCertified);
        }
        match self.store.get_high_qc(block.epoch) {
            Some(h) => {
                if h.block_id == block.id {
                    return Ok(VoteOutcome::AlreadyCertified);
                }
            },
            None => {},
        }
        let votes = self.store.get_votes(block.id);
        let decision = match calculate_threshold_decision(&votes, threshold) {
            Some(d) => d,
            None => {
                return Ok(VoteOutcome::Undecided);
            },
        };
        let qc = build_qc(block, &votes, decision);
        self.store.update_high_qc(qc);
        Ok(VoteOutcome::QcFormed)
    }
}

/// Whether `committee` holds `a`.
pub fn contains_addr(committee: &Vec<Addr>, a: Addr) -> (r: bool)
    ensures
        r == in_committee(committee@, a),
{
    let mut i: usize = 0;
    while i < committee.len()
        invariant
            0 <= i <= committee@.len(),
            forall|k: int| 0 <= k < i ==> #[trigger] committee@[k] != a,
        decreases committee@.len() - i,
    {
        if committee[i] == a {
            return true;
        }
        i = i + 1;
    }
    false
}

/// The certificate for `block` built from `votes` with decision `decision`.
pub fn build_qc(block: Block, votes: &Vec<Vote>, decision: QuorumDecision) -> (r: QuorumCertificate)
    ensures
        qc_from_votes(r, block, votes@, decision),
{
    let mut signatures: Vec<ValidatorSignature> = Vec::new();
    let mut leaf_hashes: Vec<LeafHash> = Vec::new();
    let mut proofs: Vec<u64> = Vec::new();
    let mut i: usize = 0;
    while i < votes.len()
        invariant
            0 <= i <= votes@.len(),
            signatures@ == votes@.subrange(0, i as int).map_values(|v: Vote| v.signature),
            leaf_hashes@ == votes@.subrange(0, i as int).map_values(|v: Vote| v.sender_leaf_hash),
            proofs@ == votes@.subrange(0, i as int).map_values(|v: Vote| v.merkle_proof),
        decreases votes@.len() - i,
    {
        let v = votes[i];
        signatures.push(v.signature);
        leaf_hashes.push(v.sender_leaf_hash);
        proofs.push(v.merkle_proof);
        i = i + 1;
        assert(signatures@ =~= votes@.subrange(0, i as int).map_values(|v: Vote| v.signature));
        assert(leaf_hashes@ =~= votes@.subrange(0, i as int).map_values(|v: Vote| v.sender_leaf_hash));
        assert(proofs@ =~= votes@.subrange(0, i as int).map_values(|v: Vote| v.merkle_proof));
    }
    assert(votes@.subrange(0, votes@.len() as int) =~= votes@);
    QuorumCertificate {
        block_id: block.id,
        block_height: block.height,
        epoch: block.epoch,
        signatures,
        merged_proof: proofs,
        leaf_hashes,
        decision,
    }
}

/// No vote is counted twice: `tally` never exceeds the number of votes, and
/// the tallies of the two decisions add up to it.
pub proof fn lemma_tally_sum(votes: Seq<Vote>)
    ensures
        tally(votes, QuorumDecision::Accept) + tally(votes, QuorumDecision::Reject) == votes.len(),
    decreases votes.len(),
{
    if votes.len() > 0 {
        lemma_tally_sum(votes.drop_last());
    }
}

/// At most one certificate exists per block in a well-formed store; `handle`
/// keeps the store well formed, so this holds after any sequence of votes.
pub proof fn lemma_single_qc_per_block(s: &StateStore)
    requires
        s.wf(),
    ensures
        forall|i: int, j: int|
            0 <= i < s.qcs@.len() && 0 <= j < s.qcs@.len() && #[trigger] s.qcs@[i].block_id
                == #[trigger] s.qcs@[j].block_id ==> i == j,
{
    assert forall|i: int, j: int|
        0 <= i < s.qcs@.len() && 0 <= j < s.qcs@.len() && #[trigger] s.qcs@[i].block_id
            == #[trigger] s.qcs@[j].block_id implies i == j by {
        if i < j {
            assert(s.qcs@[i].block_id != s.qcs@[j].block_id);
        } else if j < i {
            assert(s.qcs@[j].block_id != s.qcs@[i].block_id);
        }
    }
}

/// The high QC of each epoch never loses height over a sequence of stores
/// in which each step advances it (as each call of `handle` does).
pub proof fn lemma_high_qc_monotonic(a: &StateStore, b: &StateStore, c: &StateStore)
    requires
        high_qcs_advance(a, b),
        high_qcs_advance(b, c),
    ensures
        high_qcs_advance(a, c),
{
    assert forall|e: Epoch| #[trigger] high_qc_of(a.high_qcs@, e) is Some implies high_qc_of(
        c.high_qcs@,
        e,
    ) is Some && high_qc_of(c.high_qcs@, e).unwrap().block_height >= high_qc_of(
        a.high_qcs@,
        e,
    ).unwrap().block_height by {
        assert(high_qc_of(b.high_qcs@, e) is Some);
    }
}

/// Exactly `t` accepting votes, with fewer than `t` rejecting ones, decide
/// `Accept`; fewer votes than `t` in all decide nothing.
pub proof fn lemma_threshold_correct(votes: Seq<Vote>, t: nat)
    ensures
        tally(votes, QuorumDecision::Accept) == t && tally(votes, QuorumDecision::Reject) < t
            ==> decision_of(votes, t) == Some(QuorumDecision::Accept),
        votes.len() < t ==> decision_of(votes, t).is_none(),
{
    lemma_tally_sum(votes);
}

/// `t - 1` accepting and `t - 1` rejecting votes decide nothing.
pub proof fn lemma_conflicting_votes_stall(votes: Seq<Vote>, t: nat)
    requires
        t >= 1,
        tally(votes, QuorumDecision::Accept) == t - 1,
        tally(votes, QuorumDecision::Reject) == t - 1,
    ensures
        decision_of(votes, t).is_none(),
{
}

/// The quorum threshold of a committee is more than half its size, so the
/// votes of its members never give both decisions a quorum.
pub proof fn lemma_no_double_quorum(votes: Seq<Vote>, cs: CommitteeShard)
    requires
        cs.num_members > 0,
        votes.len() <= cs.num_members,
    ensures
        2 * cs.spec_quorum_threshold() > cs.num_members,
        !(tally(votes, QuorumDecision::Accept) >= cs.spec_quorum_threshold() && tally(
            votes,
            QuorumDecision::Reject,
        ) >= cs.spec_quorum_threshold()),
{
    lemma_tally_sum(votes);
}

} // verus!
