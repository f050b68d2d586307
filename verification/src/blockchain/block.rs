//! Micro and macro blocks, their transactions, and the accessors shared by
//! both kinds of block.
use vstd::prelude::*;
use crate::primitives::primitives::{Blake2bHash, Height, NetworkId, Timestamp};

verus! {

/// A block: a micro block of transactions, or a macro block closing a batch
/// or an epoch.
#[derive(Debug, Clone)]
pub enum Block {
    Micro(MicroBlock),
    Macro(MacroBlock),
}

#[derive(Debug, Clone)]
pub struct MicroBlock {
    pub header: MicroHeader,
    pub body: MicroBody,
}

#[derive(Debug, Clone)]
pub struct MicroHeader {
    pub network: NetworkId,
    pub version: u16,
    pub block_number: Height,
    pub timestamp: Timestamp,
    pub parent_hash: Blake2bHash,
    pub seed: Blake2bHash,
    pub extra_data: Vec<u8>,
    pub state_root: Blake2bHash,
    pub body_root: Blake2bHash,
    pub history_root: Blake2bHash,
}

#[derive(Debug, Clone)]
pub struct MicroBody {
    pub transactions: Vec<Transaction>,
}

#[derive(Debug, Clone)]
pub struct MacroBlock {
    pub header: MacroHeader,
    pub body: MacroBody,
}

#[derive(Debug, Clone)]
pub struct MacroHeader {
    pub network: NetworkId,
    pub version: u16,
    pub block_number: Height,
    pub round: u32,
    pub timestamp: Timestamp,
    pub parent_hash: Blake2bHash,
    pub parent_election_hash: Blake2bHash,
    pub seed: Blake2bHash,
    pub extra_data: Vec<u8>,
    pub state_root: Blake2bHash,
    pub body_root: Blake2bHash,
    pub history_root: Blake2bHash,
}

#[derive(Debug, Clone)]
pub struct MacroBody {
    /// The next validators, in election blocks only.
    pub validators: Option<Vec<ValidatorInfo>>,
    pub lost_reward_set: Vec<Blake2bHash>,
    pub disabled_set: Vec<Blake2bHash>,
    pub transactions: Vec<Transaction>,
}

/// A transaction of a block.
#[derive(Debug, Clone)]
pub struct Transaction {
    pub sender: Blake2bHash,
    pub recipient: Blake2bHash,
    pub value: u64,
    pub fee: u64,
    pub validity_start_height: Height,
    pub data: TransactionData,
    pub signature: Vec<u8>,
    pub signature_proof: Vec<u8>,
}

/// What a transaction carries.
#[derive(Debug, Clone)]
pub enum TransactionData {
    Basic,
    CDRRecord(CDRTransaction),
    Settlement(SettlementTransaction),
    ValidatorUpdate(ValidatorTransaction),
}

#[derive(Debug, Clone)]
pub struct CDRTransaction {
    pub record_type: CDRType,
    pub home_network: String,
    pub visited_network: String,
    /// Privacy-protected record data.
    pub encrypted_data: Vec<u8>,
    pub zk_proof: Vec<u8>,
}

#[derive(Debug, Clone, Copy, PartialEq, Eq, Hash, Structural)]
pub enum CDRType {
    VoiceCall,
    DataSession,
    SMS,
    Roaming,
}

#[derive(Debug, Clone)]
pub struct SettlementTransaction {
    pub creditor_network: String,
    pub debtor_network: String,
    pub amount: u64,
    pub currency: String,
    pub period: String,
}

#[derive(Debug, Clone)]
pub struct ValidatorTransaction {
    pub action: ValidatorAction,
    pub validator_address: Blake2bHash,
    pub stake: u64,
}

#[derive(Debug, Clone, Copy, PartialEq, Eq, Structural)]
pub enum ValidatorAction {
    CreateValidator,
    UpdateValidator,
    DeactivateValidator,
    ReactivateValidator,
}

/// A validator as a macro block lists it.
#[derive(Debug, Clone)]
pub struct ValidatorInfo {
    pub address: Blake2bHash,
    /// BLS public key.
    pub signing_key: Vec<u8>,
    /// Ed25519 public key.
    pub voting_key: Vec<u8>,
    pub reward_address: Blake2bHash,
    pub signal_data: Option<Vec<u8>>,
    pub inactive_from: Option<Height>,
    pub jailed_from: Option<Height>,
}

impl Block {
    /// Number of the block.
    pub fn block_number(&self) -> (n: Height)
        ensures
            n == match self {
                Block::Micro(b) => b.header.block_number,
                Block::Macro(b) => b.header.block_number,
            },
    {
        match self {
            Block::Micro(block) => block.header.block_number,
            Block::Macro(block) => block.header.block_number,
        }
    }

    pub fn timestamp(&self) -> (t: Timestamp)
        ensures
            t == match self {
                Block::Micro(b) => b.header.timestamp,
                Block::Macro(b) => b.header.timestamp,
            },
    {
        match self {
            Block::Micro(block) => block.header.timestamp,
            Block::Macro(block) => block.header.timestamp,
        }
    }

    pub fn parent_hash(&self) -> (h: &Blake2bHash)
        ensures
            *h == match self {
                Block::Micro(b) => b.header.parent_hash,
                Block::Macro(b) => b.header.parent_hash,
            },
    {
        match self {
            Block::Micro(block) => &block.header.parent_hash,
            Block::Macro(block) => &block.header.parent_hash,
        }
    }

    pub fn transactions(&self) -> (t: &[Transaction])
        ensures
            t@ == match self {
                Block::Micro(b) => b.body.transactions@,
                Block::Macro(b) => b.body.transactions@,
            },
    {
        match self {
            Block::Micro(block) => block.body.transactions.as_slice(),
            Block::Macro(block) => block.body.transactions.as_slice(),
        }
    }

    /// Same as `block_number`.
    pub fn height(&self) -> (n: Height)
        ensures
            n == match self {
                Block::Micro(b) => b.header.block_number,
                Block::Macro(b) => b.header.block_number,
            },
    {
        self.block_number()
    }
}

impl Transaction {
    /// Whether the transaction is signed and pays a fee.
    pub fn is_valid(&self) -> (r: bool)
        ensures
            r == (self.signature@.len() > 0 && self.fee > 0),
    {
        self.signature.len() > 0 && self.fee > 0
    }
}

} // verus!
