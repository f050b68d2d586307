//! Key-value storage by digest, as the chain's components see it.
use vstd::prelude::*;
use crate::primitives::error::Result;
use crate::primitives::primitives::Blake2bHash;

verus! {

/// Storage of values by digest.
pub trait StorageInterface {
    fn get(&self, key: &Blake2bHash) -> Result<Option<Vec<u8>>>;

    fn put(&mut self, key: &Blake2bHash, value: Vec<u8>) -> Result<()>;

    fn delete(&mut self, key: &Blake2bHash) -> Result<()>;
}

} // verus!
