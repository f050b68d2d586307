//! The head of the chain and its state.
use vstd::prelude::*;
use crate::primitives::primitives::{zero_bytes, Blake2bHash, Height, NetworkId};

verus! {

/// Heads of the chain and its total work.
#[derive(Debug, Clone)]
pub struct ChainInfo {
    pub head_hash: Blake2bHash,
    pub head_block_number: u32,
    pub macro_head_hash: Blake2bHash,
    pub macro_head_block_number: u32,
    pub election_head_hash: Blake2bHash,
    pub election_head_block_number: u32,
    pub total_work: u64,
}

/// State of a chain: its network, height, head and time.
#[derive(Debug, Clone)]
pub struct ChainState {
    pub network_id: NetworkId,
    pub height: Height,
    pub head_hash: Blake2bHash,
    pub timestamp: u64,
}

impl ChainState {
    /// The state of an empty chain of a network.
    pub fn new(network_id: NetworkId) -> (s: Self)
        ensures
            s.network_id == network_id,
            s.height == 0,
            s.head_hash@ == zero_bytes(),
            s.timestamp == 0,
    {
        ChainState { network_id, height: 0, head_hash: Blake2bHash::zero(), timestamp: 0 }
    }
}

} // verus!
