//! Smart contracts of the consortium: settlement records, the contract
//! machine, its checks, compiled settlement programs and their execution
//! within consensus.
use vstd::prelude::*;
use crate::primitives::primitives::{hex_lower, Blake2bHash, NetworkId};

pub mod consensus_integration;
pub mod crypto_verifier;
pub mod settlement;
pub mod settlement_contract;
pub mod vm;

verus! {

/// Errors of contract handling.
#[derive(Debug)]
pub enum SmartContractError {
    ContractNotFound(Blake2bHash),
    ExecutionFailed(String),
    InsufficientPermissions,
    InvalidCode,
}

pub type Result<T> = core::result::Result<T, SmartContractError>;

/// Message text of an error.
pub open spec fn contract_error_message(e: SmartContractError) -> Seq<char> {
    match e {
        SmartContractError::ContractNotFound(h) => "Contract not found: "@ + hex_lower(h@),
        SmartContractError::ExecutionFailed(s) => "Execution failed: "@ + s@,
        SmartContractError::InsufficientPermissions => "Insufficient permissions"@,
        SmartContractError::InvalidCode => "Invalid contract code"@,
    }
}

impl SmartContractError {
    pub fn message(&self) -> (m: String)
        ensures
            m@ == contract_error_message(*self),
    {
        match self {
            SmartContractError::ContractNotFound(h) => {
                let mut m = "Contract not found: ".to_string();
                m.append(h.to_hex().as_str());
                m
            },
            SmartContractError::ExecutionFailed(s) => {
                let mut m = "Execution failed: ".to_string();
                m.append(s.as_str());
                m
            },
            SmartContractError::InsufficientPermissions => "Insufficient permissions".to_string(),
            SmartContractError::InvalidCode => "Invalid contract code".to_string(),
        }
    }
}

/// A deployed contract.
#[derive(Debug, Clone)]
pub struct SmartContract {
    pub contract_id: Blake2bHash,
    pub code_hash: Blake2bHash,
    pub creator: Blake2bHash,
    pub created_at: u64,
    pub network: NetworkId,
}

/// Runs contracts of a network.
pub struct ContractExecutor {
    network_id: NetworkId,
}

/// What an execution by `ContractExecutor` returns.
pub open spec fn executor_output() -> Seq<u8> {
    vstd::utf8::encode_utf8("contract_execution_result"@)
}

impl ContractExecutor {
    pub closed spec fn network(&self) -> NetworkId {
        self.network_id
    }

    pub fn new(network_id: NetworkId) -> (e: Self)
        ensures
            e.network() == network_id,
    {
        ContractExecutor { network_id }
    }

    /// Runs a contract on an input: every run succeeds with the same fixed
    /// output.
    pub fn execute(&self, _contract: &SmartContract, _input: &[u8]) -> (r: Result<Vec<u8>>)
        ensures
            r matches Ok(out) && out@ == executor_output(),
    {
        let mut out: Vec<u8> = Vec::new();
        crate::encoding::push_str(&mut out, "contract_execution_result");
        Ok(out)
    }
}

} // verus!
