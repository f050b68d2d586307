//! Store of the chain's state history.
use vstd::prelude::*;
use crate::primitives::error::Result;
use crate::primitives::primitives::Blake2bHash;

verus! {

/// Store of state history; it keeps nothing yet.
pub struct HistoryStore {}

impl HistoryStore {
    pub fn new() -> (r: Result<Self>)
        ensures
            r is Ok,
    {
        Ok(HistoryStore {  })
    }

    /// Records history data under a hash; nothing is kept yet.
    pub fn store_history(&self, hash: &Blake2bHash, data: Vec<u8>) -> (r: Result<()>)
        ensures
            r is Ok,
    {
        Ok(())
    }
}

} // verus!
