//! Errors and events of the chain.
use vstd::prelude::*;
use crate::primitives::primitives::Blake2bHash;

verus! {

/// Errors of block, transaction, storage and contract processing.
#[derive(Debug)]
pub enum BlockchainError {
    BlockValidation(String),
    InvalidTransaction(String),
    Storage(String),
    NetworkError(String),
    Consensus(String),
    Crypto(String),
    ZkProof(String),
    Serialization(String),
    InvalidState(String),
    NotFound(String),
    InvalidOperation(String),
    InvalidProof,
    InvalidSignature,
    ContractNotFound,
    StackOverflow,
    StackUnderflow,
    OutOfGas,
}

pub type Result<T> = core::result::Result<T, BlockchainError>;

/// Message text of an error, as the error's display gives it.
pub open spec fn error_message(e: BlockchainError) -> Seq<char> {
    match e {
        BlockchainError::BlockValidation(s) => "Block validation failed: "@ + s@,
        BlockchainError::InvalidTransaction(s) => "Transaction validation failed: "@ + s@,
        BlockchainError::Storage(s) => "Storage error: "@ + s@,
        BlockchainError::NetworkError(s) => "Network error: "@ + s@,
        BlockchainError::Consensus(s) => "Consensus error: "@ + s@,
        BlockchainError::Crypto(s) => "Cryptography error: "@ + s@,
        BlockchainError::ZkProof(s) => "ZK proof error: "@ + s@,
        BlockchainError::Serialization(s) => "Serialization error: "@ + s@,
        BlockchainError::InvalidState(s) => "Invalid state: "@ + s@,
        BlockchainError::NotFound(s) => "Not found: "@ + s@,
        BlockchainError::InvalidOperation(s) => "Invalid operation: "@ + s@,
        BlockchainError::InvalidProof => "Invalid proof"@,
        BlockchainError::InvalidSignature => "Invalid signature"@,
        BlockchainError::ContractNotFound => "Contract not found"@,
        BlockchainError::StackOverflow => "Stack overflow"@,
        BlockchainError::StackUnderflow => "Stack underflow"@,
        BlockchainError::OutOfGas => "Out of gas"@,
    }
}

fn prefixed(prefix: &str, s: &String) -> (r: String)
    ensures
        r@ == prefix@ + s@,
{
    let mut r = prefix.to_string();
    r.append(s.as_str());
    r
}

impl BlockchainError {
    /// Message text of the error.
    pub fn message(&self) -> (m: String)
        ensures
            m@ == error_message(*self),
    {
        match self {
            BlockchainError::BlockValidation(s) => prefixed("Block validation failed: ", s),
            BlockchainError::InvalidTransaction(s) => prefixed("Transaction validation failed: ", s),
            BlockchainError::Storage(s) => prefixed("Storage error: ", s),
            BlockchainError::NetworkError(s) => prefixed("Network error: ", s),
            BlockchainError::Consensus(s) => prefixed("Consensus error: ", s),
            BlockchainError::Crypto(s) => prefixed("Cryptography error: ", s),
            BlockchainError::ZkProof(s) => prefixed("ZK proof error: ", s),
            BlockchainError::Serialization(s) => prefixed("Serialization error: ", s),
            BlockchainError::InvalidState(s) => prefixed("Invalid state: ", s),
            BlockchainError::NotFound(s) => prefixed("Not found: ", s),
            BlockchainError::InvalidOperation(s) => prefixed("Invalid operation: ", s),
            BlockchainError::InvalidProof => "Invalid proof".to_string(),
            BlockchainError::InvalidSignature => "Invalid signature".to_string(),
            BlockchainError::ContractNotFound => "Contract not found".to_string(),
            BlockchainError::StackOverflow => "Stack overflow".to_string(),
            BlockchainError::StackUnderflow => "Stack underflow".to_string(),
            BlockchainError::OutOfGas => "Out of gas".to_string(),
        }
    }
}

/// Events of the main chain.
#[derive(Debug, Clone)]
pub enum BlockchainEvent {
    /// A block extended the main chain.
    Extended(Blake2bHash),
    /// A block was reverted from the main chain.
    Reverted(Blake2bHash),
    /// The chain switched to another fork.
    Rebranched { old_blocks: Vec<Blake2bHash>, new_blocks: Vec<Blake2bHash> },
    /// A macro block made these blocks final.
    Finalized(Blake2bHash),
}

/// Events of the consensus layer.
#[derive(Debug, Clone)]
pub enum ConsensusEvent {
    /// Consensus is established.
    Established { synced_validity_window: bool },
    /// Consensus was lost.
    Lost,
    /// Waiting for more peers.
    Waiting,
}

} // verus!
