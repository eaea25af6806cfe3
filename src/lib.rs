//! Consensus core of a sharded validator node: epochs, the quorum
//! certificate data model, vote reception and quorum certificate formation,
//! transaction pledge resolution and the shard fan-out of new transactions.

pub mod consensus_models;
pub mod epoch;
pub mod mempool;
pub mod on_receive_vote;
pub mod pledged;

use vstd::prelude::*;

verus! {

} // verus!
