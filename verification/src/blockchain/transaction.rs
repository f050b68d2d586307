//! Transactions of the records chain: records, settlements and networks
//! joining.
use vstd::prelude::*;
use crate::primitives::primitives::{Blake2bHash, Timestamp};

verus! {

#[derive(Debug, Clone)]
pub enum Transaction {
    CDRRecord(CDRTransaction),
    Settlement(SettlementTransaction),
    NetworkJoin(NetworkJoinTransaction),
}

#[derive(Debug, Clone)]
pub struct CDRTransaction {
    pub batch_id: Blake2bHash,
    pub home_network: String,
    pub visited_network: String,
    pub record_count: u32,
    pub total_charges: u64,
    pub encrypted_data: Vec<u8>,
    pub privacy_proof: Vec<u8>,
    pub timestamp: Timestamp,
}

#[derive(Debug, Clone)]
pub struct SettlementTransaction {
    pub settlement_id: Blake2bHash,
    pub creditor_network: String,
    pub debtor_network: String,
    pub amount: u64,
    pub currency: String,
    pub exchange_rate: u32,
    pub settlement_proof: Vec<u8>,
    pub batch_references: Vec<Blake2bHash>,
    pub timestamp: Timestamp,
}

#[derive(Debug, Clone)]
pub struct NetworkJoinTransaction {
    pub network_name: String,
    pub public_key: Vec<u8>,
    pub country_code: String,
    pub operator_license: Vec<u8>,
    pub timestamp: Timestamp,
}

} // verus!
