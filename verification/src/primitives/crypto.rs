//! Hash checks and commitments over the chain's hash.
use vstd::prelude::*;
use crate::primitives::primitives::{hash_data, sha256, Blake2bHash};

verus! {

/// Outcome of checking a signature.
#[derive(Debug, Clone, Copy, PartialEq, Eq, Structural)]
pub enum SignatureVerificationResult {
    Valid,
    Invalid,
    UnknownKey,
    ExpiredSignature,
}

/// Whether `data` hashes to `expected_hash`.
pub fn verify_hash_integrity(data: &[u8], expected_hash: &Blake2bHash) -> (r: bool)
    ensures
        r == (sha256(data@) == expected_hash@),
{
    let computed = hash_data(data);
    computed == *expected_hash
}

/// Commitment to private data: the hash of the data followed by the randomness.
pub fn create_commitment(data: &[u8], randomness: &[u8]) -> (c: Blake2bHash)
    ensures
        c@ == sha256(data@ + randomness@),
{
    let mut combined: Vec<u8> = Vec::new();
    let mut i: usize = 0;
    while i < data.len()
        invariant
            0 <= i <= data@.len(),
            combined@ == data@.subrange(0, i as int),
        decreases data@.len() - i,
    {
        combined.push(data[i]);
        i = i + 1;
        assert(combined@ =~= data@.subrange(0, i as int));
    }
    let mut k: usize = 0;
    while k < randomness.len()
        invariant
            0 <= k <= randomness@.len(),
            combined@ == data@ + randomness@.subrange(0, k as int),
        decreases randomness@.len() - k,
    {
        combined.push(randomness[k]);
        k = k + 1;
        assert(combined@ =~= data@ + randomness@.subrange(0, k as int));
    }
    assert(data@.subrange(0, data@.len() as int) =~= data@);
    assert(randomness@.subrange(0, randomness@.len() as int) =~= randomness@);
    hash_data(combined.as_slice())
}

} // verus!
