//! The chain store interface: blocks by hash and number, and the heads of
//! the chain.
use vstd::prelude::*;
use crate::blockchain::block::Block;
use crate::primitives::error::Result;
use crate::primitives::primitives::{zero_bytes, Blake2bHash};

verus! {

/// Storage of blocks and of the chain's heads.
pub trait ChainStore {
    /// The block with a hash, if stored.
    fn get_block(&self, hash: &Blake2bHash) -> Result<Option<Block>>;

    /// The block with a number, if stored.
    fn get_block_at(&self, block_number: u32) -> Result<Option<Block>>;

    /// Stores a block.
    fn put_block(&mut self, block: &Block) -> Result<()>;

    /// Hash of the chain's head.
    fn get_head_hash(&self) -> Result<Blake2bHash>;

    /// Sets the chain's head.
    fn set_head(&mut self, hash: &Blake2bHash) -> Result<()>;

    /// Hash of the latest macro block.
    fn get_macro_head_hash(&self) -> Result<Blake2bHash>;

    /// Sets the latest macro block.
    fn set_macro_head(&mut self, hash: &Blake2bHash) -> Result<()>;

    /// Hash of the latest election block.
    fn get_election_head_hash(&self) -> Result<Blake2bHash>;

    /// Sets the latest election block.
    fn set_election_head(&mut self, hash: &Blake2bHash) -> Result<()>;
}

/// A store that keeps nothing: every block is missing and every head is
/// the zero hash.
pub struct SimpleChainStore;

impl SimpleChainStore {
    pub fn new() -> (s: Self) {
        SimpleChainStore
    }
}

impl ChainStore for SimpleChainStore {
    fn get_block(&self, hash: &Blake2bHash) -> (r: Result<Option<Block>>)
        ensures
            r matches Ok(None),
    {
        Ok(None)
    }

    fn get_block_at(&self, block_number: u32) -> (r: Result<Option<Block>>)
        ensures
            r matches Ok(None),
    {
        Ok(None)
    }

    fn put_block(&mut self, block: &Block) -> (r: Result<()>)
        ensures
            r is Ok,
    {
        Ok(())
    }

    fn get_head_hash(&self) -> (r: Result<Blake2bHash>)
        ensures
            r matches Ok(h) && h@ == zero_bytes(),
    {
        Ok(Blake2bHash::zero())
    }

    fn set_head(&mut self, hash: &Blake2bHash) -> (r: Result<()>)
        ensures
            r is Ok,
    {
        Ok(())
    }

    fn get_macro_head_hash(&self) -> (r: Result<Blake2bHash>)
        ensures
            r matches Ok(h) && h@ == zero_bytes(),
    {
        Ok(Blake2bHash::zero())
    }

    fn set_macro_head(&mut self, hash: &Blake2bHash) -> (r: Result<()>)
        ensures
            r is Ok,
    {
        Ok(())
    }

    fn get_election_head_hash(&self) -> (r: Result<Blake2bHash>)
        ensures
            r matches Ok(h) && h@ == zero_bytes(),
    {
        Ok(Blake2bHash::zero())
    }

    fn set_election_head(&mut self, hash: &Blake2bHash) -> (r: Result<()>)
        ensures
            r is Ok,
    {
        Ok(())
    }
}

} // verus!
