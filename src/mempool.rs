//! Intake of new transactions: each is remembered once and handed to the
//! consensus instance of every shard it touches.

use vstd::prelude::*;
use crate::consensus_models::ShardId;

verus! {

/// Identifier of a transaction.
pub type TransactionId = u64;

/// A submitted transaction, as far as shard routing reads it: the shards of
/// the substates it reads and of those it writes.
#[derive(Clone, Debug)]
pub struct Transaction {
    pub id: TransactionId,
    pub inputs: Vec<ShardId>,
    pub outputs: Vec<ShardId>,
}

/// Whether transaction `t` touches shard `s`.
pub open spec fn touches(t: &Transaction, s: ShardId) -> bool {
    t.inputs@.contains(s) || t.outputs@.contains(s)
}

/// Whether `v` holds `x`.
fn vec_contains(v: &Vec<u64>, x: u64) -> (r: bool)
    ensures
        r == v@.contains(x),
{
    let mut i: usize = 0;
    while i < v.len()
        invariant
            0 <= i <= v@.len(),
            forall|k: int| 0 <= k < i ==> #[trigger] v@[k] != x,
        decreases v@.len() - i,
    {
        if v[i] == x {
            assert(v@[i as int] == x);
            return true;
        }
        i = i + 1;
    }
    false
}

/// Appends to `acc` each shard of `shards` that it does not hold yet.
fn add_new_shards(acc: &mut Vec<ShardId>, shards: &Vec<ShardId>)
    requires
        old(acc)@.no_duplicates(),
    ensures
        final(acc)@.no_duplicates(),
        forall|s: ShardId| #[trigger] final(acc)@.contains(s) <==> (old(acc)@.contains(s) || shards@.contains(s)),
{
    let ghost start = acc@;
    let mut i: usize = 0;
    while i < shards.len()
        invariant
            0 <= i <= shards@.len(),
            acc@.no_duplicates(),
            forall|s: ShardId| #[trigger] acc@.contains(s) <==> (start.contains(s) || shards@.subrange(0, i as int).contains(s)),
        decreases shards@.len() - i,
    {
        let s = shards[i];
        let found = vec_contains(acc, s);
        let ghost before = acc@;
        let ghost prefix = shards@.subrange(0, i as int);
        let ghost next = shards@.subrange(0, i + 1);
        if !found {
            acc.push(s);
        }
        proof {
            assert(next =~= prefix.push(s));
            assert(next[i as int] == s);
            assert forall|x: ShardId| #[trigger] acc@.contains(x) <==> (start.contains(x) || next.contains(x)) by {
                if acc@.contains(x) {
                    if x != s {
                        let j = choose|j: int| 0 <= j < acc@.len() && acc@[j] == x;
                        assert(j < before.len());
                        assert(before[j] == x);
                        assert(before.contains(x));
                        if prefix.contains(x) {
                            let k = choose|k: int| 0 <= k < prefix.len() && prefix[k] == x;
                            assert(next[k] == x);
                        }
                    }
                }
                if start.contains(x) || prefix.contains(x) {
                    assert(before.contains(x));
                    let j = choose|j: int| 0 <= j < before.len() && before[j] == x;
                    assert(acc@[j] == x);
                }
                if next.contains(x) && x == s {
                    if found {
                        let j = choose|j: int| 0 <= j < before.len() && before[j] == s;
                        assert(acc@[j] == s);
                    } else {
                        assert(acc@[acc@.len() - 1] == s);
                    }
                }
                if next.contains(x) && x != s {
                    let k = choose|k: int| 0 <= k < next.len() && next[k] == x;
                    assert(k < i);
                    assert(prefix[k] == x);
                    assert(prefix.contains(x));
                }
            }
        }
        i = i + 1;
    }
    assert(shards@.subrange(0, shards@.len() as int) =~= shards@);
}

/// The shards a transaction touches, each once: first those of its inputs,
/// then those of its outputs, in order.
pub fn involved_shards(t: &Transaction) -> (r: Vec<ShardId>)
    ensures
        r@.no_duplicates(),
        forall|s: ShardId| #[trigger] r@.contains(s) <==> touches(t, s),
{
    let mut r: Vec<ShardId> = Vec::new();
    add_new_shards(&mut r, &t.inputs);
    add_new_shards(&mut r, &t.outputs);
    r
}

/// The events that hand `t` to the consensus instances of its shards: one
/// `(transaction, shard)` pair for each shard it touches, and no other.
pub fn shard_events(t: &Transaction) -> (r: Vec<(TransactionId, ShardId)>)
    ensures
        forall|i: int| 0 <= i < r@.len() ==> (#[trigger] r@[i]).0 == t.id && touches(t, r@[i].1),
        forall|s: ShardId| touches(t, s) ==> exists|i: int| 0 <= i < r@.len() && (#[trigger] r@[i]).1 == s,
        forall|i: int, j: int| 0 <= i < j < r@.len() ==> (#[trigger] r@[i]).1 != (#[trigger] r@[j]).1,
{
    let shards = involved_shards(t);
    let mut r: Vec<(TransactionId, ShardId)> = Vec::new();
    let mut i: usize = 0;
    while i < shards.len()
        invariant
            0 <= i <= shards@.len(),
            r@.len() == i,
            forall|k: int| 0 <= k < i ==> #[trigger] r@[k] == (t.id, shards@[k]),
        decreases shards@.len() - i,
    {
        r.push((t.id, shards[i]));
        i = i + 1;
    }
    proof {
        assert forall|i: int| 0 <= i < r@.len() implies (#[trigger] r@[i]).0 == t.id && touches(t, r@[i].1) by {
            assert(shards@.contains(shards@[i]));
        }
        assert forall|s: ShardId| touches(t, s) implies exists|i: int| 0 <= i < r@.len() && (#[trigger] r@[i]).1 == s by {
            assert(shards@.contains(s));
            let k = choose|k: int| 0 <= k < shards@.len() && shards@[k] == s;
            assert(r@[k].1 == s);
        }
    }
    r
}

/// The transactions this node has seen, each held once, in the order they
/// first arrived.
pub struct MempoolService {
    transactions: Vec<TransactionId>,
}

impl MempoolService {
    /// The ids of the transactions seen so far.
    pub closed spec fn view(&self) -> Seq<TransactionId> {
        self.transactions@
    }

    pub fn new() -> (r: MempoolService)
        ensures
            r@ == Seq::<TransactionId>::empty(),
    {
        MempoolService { transactions: Vec::new() }
    }

    /// Whether transaction `id` has been seen.
    pub fn contains(&self, id: TransactionId) -> (r: bool)
        ensures
            r == self@.contains(id),
    {
        vec_contains(&self.transactions, id)
    }

    /// Records a newly submitted transaction (once, however often it comes)
    /// and returns the events that hand it to each shard it touches.
    pub fn handle_new_transaction(&mut self, t: &Transaction) -> (r: Vec<(TransactionId, ShardId)>)
        ensures
            final(self)@ == if old(self)@.contains(t.id) { old(self)@ } else { old(self)@.push(t.id) },
            forall|i: int| 0 <= i < r@.len() ==> (#[trigger] r@[i]).0 == t.id && touches(t, r@[i].1),
            forall|s: ShardId| touches(t, s) ==> exists|i: int| 0 <= i < r@.len() && (#[trigger] r@[i]).1 == s,
            forall|i: int, j: int| 0 <= i < j < r@.len() ==> (#[trigger] r@[i]).1 != (#[trigger] r@[j]).1,
    {
        let events = shard_events(t);
        if !self.contains(t.id) {
            self.transactions.push(t.id);
        }
        events
    }
}

} // verus!
