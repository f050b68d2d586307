//! Settlement agreements, record batch contracts and their execution.
use vstd::prelude::*;
use vstd::string::StringSliceAdditionalSpecFns;
use crate::clock::{debug_string_list, format_debug_strings, unix_now};
use crate::collections::VecMap;
use crate::encoding::{decimal, push_decimal, push_str};
use crate::primitives::cdr::{batch_key, CDRStatus};
use crate::primitives::error::{BlockchainError, Result};
use crate::primitives::primitives::{hash_data, sha256, Blake2bHash};

verus! {

/// How often participants settle.
#[derive(Debug, Clone, Copy, PartialEq, Eq, Structural)]
pub enum SettlementPeriod {
    Daily,
    Weekly,
    Monthly,
    Quarterly,
}

/// Name of a settlement period, as its `Debug` text gives it.
pub open spec fn period_name(p: SettlementPeriod) -> Seq<char> {
    match p {
        SettlementPeriod::Daily => "Daily"@,
        SettlementPeriod::Weekly => "Weekly"@,
        SettlementPeriod::Monthly => "Monthly"@,
        SettlementPeriod::Quarterly => "Quarterly"@,
    }
}

impl SettlementPeriod {
    /// Name of the period.
    pub fn name(&self) -> (s: &'static str)
        ensures
            s@ == period_name(*self),
    {
        match self {
            SettlementPeriod::Daily => "Daily",
            SettlementPeriod::Weekly => "Weekly",
            SettlementPeriod::Monthly => "Monthly",
            SettlementPeriod::Quarterly => "Quarterly",
        }
    }
}

/// Life cycle of a settlement agreement.
#[derive(Debug, Clone, Copy, PartialEq, Eq, Structural)]
pub enum SettlementStatus {
    Active,
    Pending,
    Executed,
    Disputed,
    Cancelled,
}

/// A settlement agreement among operator networks.
#[derive(Debug, Clone)]
pub struct SettlementContract {
    pub contract_id: Blake2bHash,
    /// Operator network names.
    pub participants: Vec<String>,
    pub settlement_period: SettlementPeriod,
    pub status: SettlementStatus,
    pub created_at: u64,
    pub expires_at: u64,
}

/// Bytes hashed for an agreement's identifier: the `Debug` text of the
/// participant list, `:`, the period's name, `:`, the duration.
pub open spec fn contract_key(participants: Seq<Seq<char>>, period: SettlementPeriod, duration: u64) -> Seq<u8> {
    vstd::utf8::encode_utf8(debug_string_list(participants)) + seq![58u8] + vstd::utf8::encode_utf8(
        period_name(period),
    ) + seq![58u8] + decimal(duration as nat)
}

/// `a + b`, or `u64::MAX` when the sum exceeds it.
pub open spec fn sat_add(a: u64, b: u64) -> u64 {
    if a + b > u64::MAX {
        u64::MAX
    } else {
        (a + b) as u64
    }
}

/// Views of a list of strings.
pub open spec fn string_views(v: Seq<String>) -> Seq<Seq<char>> {
    v.map_values(|s: String| s@)
}

impl SettlementContract {
    /// A new active agreement created at `now`, expiring `duration_seconds`
    /// later (at `u64::MAX` when that sum exceeds it).
    pub fn new_at(participants: Vec<String>, settlement_period: SettlementPeriod, duration_seconds: u64, now: u64) -> (c: Self)
        ensures
            c.contract_id@ == sha256(contract_key(string_views(participants@), settlement_period, duration_seconds)),
            c.participants@ == participants@,
            c.settlement_period == settlement_period,
            c.status == SettlementStatus::Active,
            c.created_at == now,
            c.expires_at == sat_add(now, duration_seconds),
    {
        let text = format_debug_strings(&participants);
        let mut key: Vec<u8> = Vec::new();
        push_str(&mut key, text.as_str());
        key.push(58u8);
        push_str(&mut key, settlement_period.name());
        key.push(58u8);
        push_decimal(&mut key, duration_seconds);
        assert(key@ =~= contract_key(string_views(participants@), settlement_period, duration_seconds));
        let contract_id = hash_data(key.as_slice());
        SettlementContract {
            contract_id,
            participants,
            settlement_period,
            status: SettlementStatus::Active,
            created_at: now,
            expires_at: now.saturating_add(duration_seconds),
        }
    }

    /// A new active agreement created now.
    pub fn new(participants: Vec<String>, settlement_period: SettlementPeriod, duration_seconds: u64) -> (c: Self)
        ensures
            c.contract_id@ == sha256(contract_key(string_views(participants@), settlement_period, duration_seconds)),
            c.participants@ == participants@,
            c.settlement_period == settlement_period,
            c.status == SettlementStatus::Active,
            c.expires_at == sat_add(c.created_at, duration_seconds),
    {
        let now = unix_now();
        Self::new_at(participants, settlement_period, duration_seconds, now)
    }

    /// Whether `network` is one of the participants.
    pub fn is_participant(&self, network: &str) -> (r: bool)
        ensures
            r == string_views(self.participants@).contains(network@),
    {
        let mut i: usize = 0;
        while i < self.participants.len()
            invariant
                0 <= i <= self.participants@.len(),
                forall|j: int| 0 <= j < i ==> self.participants@[j]@ != network@,
            decreases self.participants@.len() - i,
        {
            if crate::encoding::str_eq(self.participants[i].as_str(), network) {
                assert(string_views(self.participants@)[i as int] == network@);
                return true;
            }
            i = i + 1;
        }
        proof {
            if string_views(self.participants@).contains(network@) {
                let j = choose|j: int| 0 <= j < string_views(self.participants@).len() && string_views(self.participants@)[j] == network@;
                assert(self.participants@[j]@ == network@);
            }
        }
        false
    }

    /// Expired once the time passes the expiry.
    pub fn is_expired(&self, current_time: u64) -> (r: bool)
        ensures
            r == (current_time > self.expires_at),
    {
        current_time > self.expires_at
    }

    /// Executes a pending agreement; refused in any other state.
    pub fn execute_settlement(&mut self) -> (r: Result<()>)
        ensures
            old(self).status == SettlementStatus::Pending ==> r is Ok && *final(self) == (
            SettlementContract { status: SettlementStatus::Executed, ..*old(self) }),
            old(self).status != SettlementStatus::Pending ==> *final(self) == *old(self) && (r matches Err(
                BlockchainError::InvalidOperation(m),
            ) && m@ == "Settlement not in pending state"@),
    {
        if self.status != SettlementStatus::Pending {
            return Err(BlockchainError::InvalidOperation("Settlement not in pending state".to_string()));
        }
        self.status = SettlementStatus::Executed;
        Ok(())
    }
}

/// A record batch between two networks, awaiting both networks' signatures.
pub struct CDRBatchContract {
    pub batch_id: Blake2bHash,
    pub home_network: String,
    pub visited_network: String,
    pub period_start: u64,
    pub period_end: u64,
    pub encrypted_cdrs: Vec<u8>,
    pub privacy_proof: Vec<u8>,
    pub total_amount: u64,
    pub currency: String,
    /// Signatures by network name.
    pub signatures: VecMap<String, Vec<u8>>,
    pub status: CDRStatus,
}

impl CDRBatchContract {
    /// A pending batch with no signatures; its identifier is the hash of
    /// `home:visited:start:end`.
    pub fn new(
        home_network: String,
        visited_network: String,
        period_start: u64,
        period_end: u64,
        encrypted_cdrs: Vec<u8>,
        privacy_proof: Vec<u8>,
        total_amount: u64,
        currency: String,
    ) -> (c: Self)
        ensures
            c.batch_id@ == sha256(batch_key(home_network@, visited_network@, period_start, period_end)),
            c.home_network@ == home_network@,
            c.visited_network@ == visited_network@,
            c.period_start == period_start,
            c.period_end == period_end,
            c.encrypted_cdrs@ == encrypted_cdrs@,
            c.privacy_proof@ == privacy_proof@,
            c.total_amount == total_amount,
            c.currency@ == currency@,
            c.signatures@ == Map::<Seq<char>, Vec<u8>>::empty(),
            c.status == CDRStatus::Pending,
    {
        let mut key: Vec<u8> = Vec::new();
        push_str(&mut key, home_network.as_str());
        key.push(58u8);
        push_str(&mut key, visited_network.as_str());
        key.push(58u8);
        push_decimal(&mut key, period_start);
        key.push(58u8);
        push_decimal(&mut key, period_end);
        assert(key@ =~= batch_key(home_network@, visited_network@, period_start, period_end));
        let batch_id = hash_data(key.as_slice());
        CDRBatchContract {
            batch_id,
            home_network,
            visited_network,
            period_start,
            period_end,
            encrypted_cdrs,
            privacy_proof,
            total_amount,
            currency,
            signatures: VecMap::new(),
            status: CDRStatus::Pending,
        }
    }

    /// Records a participating network's signature (replacing an earlier one
    /// of that network); once two networks have signed the batch is
    /// validated. Other networks are refused.
    pub fn add_signature(&mut self, network: String, signature: Vec<u8>) -> (r: Result<()>)
        ensures
            (network@ == old(self).home_network@ || network@ == old(self).visited_network@) ==> {
                &&& r is Ok
                &&& final(self).signatures@ == old(self).signatures@.insert(network@, signature)
                &&& final(self).status == (if final(self).signatures@.dom().len() == 2 {
                    CDRStatus::Validated
                } else {
                    old(self).status
                })
            },
            !(network@ == old(self).home_network@ || network@ == old(self).visited_network@) ==> {
                &&& r matches Err(BlockchainError::InvalidOperation(m))
                &&& m@ == "Only participating networks can sign"@
                &&& final(self).signatures@ == old(self).signatures@
                &&& final(self).status == old(self).status
            },
            final(self).batch_id == old(self).batch_id,
            final(self).home_network == old(self).home_network,
            final(self).visited_network == old(self).visited_network,
            final(self).total_amount == old(self).total_amount,
    {
        if network != self.home_network && network != self.visited_network {
            return Err(BlockchainError::InvalidOperation("Only participating networks can sign".to_string()));
        }
        self.signatures.insert(network, signature);
        if self.signatures.len() == 2 {
            self.status = CDRStatus::Validated;
        }
        Ok(())
    }

    /// Ready once validated with two signatures.
    pub fn is_ready_for_settlement(&self) -> (r: bool)
        ensures
            r == (self.status == CDRStatus::Validated && self.signatures@.dom().len() == 2),
    {
        self.status == CDRStatus::Validated && self.signatures.len() == 2
    }
}

/// Net settlement between a creditor and a debtor network.
#[derive(Debug, Clone)]
pub struct SettlementExecutionContract {
    pub execution_id: Blake2bHash,
    pub creditor_network: String,
    pub debtor_network: String,
    pub net_amount: u64,
    pub currency: String,
    pub exchange_rate: u32,
    pub batch_references: Vec<Blake2bHash>,
    pub settlement_proof: Vec<u8>,
    pub multi_sig: Vec<u8>,
    pub executed_at: u64,
}

/// Bytes hashed for an execution's identifier: `creditor:debtor:amount:currency`.
pub open spec fn execution_key(creditor: Seq<char>, debtor: Seq<char>, amount: u64, currency: Seq<char>) -> Seq<u8> {
    vstd::utf8::encode_utf8(creditor) + seq![58u8] + vstd::utf8::encode_utf8(debtor) + seq![58u8]
        + decimal(amount as nat) + seq![58u8] + vstd::utf8::encode_utf8(currency)
}

impl SettlementExecutionContract {
    /// An execution record stamped with time `executed_at`.
    pub fn new_at(
        creditor_network: String,
        debtor_network: String,
        net_amount: u64,
        currency: String,
        exchange_rate: u32,
        batch_references: Vec<Blake2bHash>,
        settlement_proof: Vec<u8>,
        multi_sig: Vec<u8>,
        executed_at: u64,
    ) -> (c: Self)
        ensures
            c.execution_id@ == sha256(execution_key(creditor_network@, debtor_network@, net_amount, currency@)),
            c.creditor_network@ == creditor_network@,
            c.debtor_network@ == debtor_network@,
            c.net_amount == net_amount,
            c.currency@ == currency@,
            c.exchange_rate == exchange_rate,
            c.batch_references@ == batch_references@,
            c.settlement_proof@ == settlement_proof@,
            c.multi_sig@ == multi_sig@,
            c.executed_at == executed_at,
    {
        let mut key: Vec<u8> = Vec::new();
        push_str(&mut key, creditor_network.as_str());
        key.push(58u8);
        push_str(&mut key, debtor_network.as_str());
        key.push(58u8);
        push_decimal(&mut key, net_amount);
        key.push(58u8);
        push_str(&mut key, currency.as_str());
        assert(key@ =~= execution_key(creditor_network@, debtor_network@, net_amount, currency@));
        let execution_id = hash_data(key.as_slice());
        SettlementExecutionContract {
            execution_id,
            creditor_network,
            debtor_network,
            net_amount,
            currency,
            exchange_rate,
            batch_references,
            settlement_proof,
            multi_sig,
            executed_at,
        }
    }

    /// An execution record stamped now.
    pub fn new(
        creditor_network: String,
        debtor_network: String,
        net_amount: u64,
        currency: String,
        exchange_rate: u32,
        batch_references: Vec<Blake2bHash>,
        settlement_proof: Vec<u8>,
        multi_sig: Vec<u8>,
    ) -> (c: Self)
        ensures
            c.execution_id@ == sha256(execution_key(creditor_network@, debtor_network@, net_amount, currency@)),
            c.creditor_network@ == creditor_network@,
            c.debtor_network@ == debtor_network@,
            c.net_amount == net_amount,
            c.currency@ == currency@,
            c.exchange_rate == exchange_rate,
            c.batch_references@ == batch_references@,
            c.settlement_proof@ == settlement_proof@,
            c.multi_sig@ == multi_sig@,
    {
        let now = unix_now();
        Self::new_at(
            creditor_network,
            debtor_network,
            net_amount,
            currency,
            exchange_rate,
            batch_references,
            settlement_proof,
            multi_sig,
            now,
        )
    }

    /// The settlement proof is accepted when present.
    pub fn verify_settlement_proof(&self) -> (r: Result<bool>)
        ensures
            r matches Ok(b) && b == (self.settlement_proof@.len() > 0),
    {
        Ok(self.settlement_proof.len() > 0)
    }

    /// The multi-signature is accepted when present.
    pub fn verify_multi_signature(&self) -> (r: Result<bool>)
        ensures
            r matches Ok(b) && b == (self.multi_sig@.len() > 0),
    {
        Ok(self.multi_sig.len() > 0)
    }
}

/// Registry of agreements, batch contracts and executions.
pub struct SettlementEngine {
    contracts: VecMap<Blake2bHash, SettlementContract>,
    batch_contracts: VecMap<Blake2bHash, CDRBatchContract>,
    executions: VecMap<Blake2bHash, SettlementExecutionContract>,
}

impl SettlementEngine {
    /// Agreements by identifier.
    pub closed spec fn contract_map(&self) -> Map<Seq<u8>, SettlementContract> {
        self.contracts@
    }

    /// Batch contracts by batch identifier.
    pub closed spec fn batch_map(&self) -> Map<Seq<u8>, CDRBatchContract> {
        self.batch_contracts@
    }

    /// Executions by execution identifier.
    pub closed spec fn execution_map(&self) -> Map<Seq<u8>, SettlementExecutionContract> {
        self.executions@
    }

    /// An engine with nothing registered.
    pub fn new() -> (e: Self)
        ensures
            e.contract_map() == Map::<Seq<u8>, SettlementContract>::empty(),
            e.batch_map() == Map::<Seq<u8>, CDRBatchContract>::empty(),
            e.execution_map() == Map::<Seq<u8>, SettlementExecutionContract>::empty(),
    {
        SettlementEngine { contracts: VecMap::new(), batch_contracts: VecMap::new(), executions: VecMap::new() }
    }

    /// Creates and registers a new agreement; returns its identifier.
    pub fn create_settlement_contract(&mut self, participants: Vec<String>, period: SettlementPeriod, duration: u64) -> (id: Blake2bHash)
        ensures
            id@ == sha256(contract_key(string_views(participants@), period, duration)),
            final(self).contract_map().contains_key(id@),
            final(self).contract_map() == old(self).contract_map().insert(id@, final(self).contract_map()[id@]),
            final(self).contract_map()[id@].contract_id == id,
            final(self).contract_map()[id@].participants@ == participants@,
            final(self).contract_map()[id@].settlement_period == period,
            final(self).contract_map()[id@].status == SettlementStatus::Active,
            final(self).contract_map()[id@].expires_at == sat_add(final(self).contract_map()[id@].created_at, duration),
            final(self).batch_map() == old(self).batch_map(),
            final(self).execution_map() == old(self).execution_map(),
    {
        let contract = SettlementContract::new(participants, period, duration);
        let contract_id = contract.contract_id;
        self.contracts.insert(contract_id, contract);
        contract_id
    }

    /// Registers a batch contract under its batch identifier.
    pub fn submit_cdr_batch(&mut self, contract: CDRBatchContract) -> (r: Result<()>)
        ensures
            r is Ok,
            final(self).batch_map() == old(self).batch_map().insert(contract.batch_id@, contract),
            final(self).contract_map() == old(self).contract_map(),
            final(self).execution_map() == old(self).execution_map(),
    {
        let batch_id = contract.batch_id;
        self.batch_contracts.insert(batch_id, contract);
        Ok(())
    }

    /// Registers an execution whose proof and multi-signature are present;
    /// refuses one without a proof, then one without a multi-signature.
    pub fn execute_settlement(&mut self, execution: SettlementExecutionContract) -> (r: Result<Blake2bHash>)
        ensures
            execution.settlement_proof@.len() == 0 ==> r matches Err(BlockchainError::InvalidProof),
            execution.settlement_proof@.len() > 0 && execution.multi_sig@.len() == 0 ==> r matches Err(
                BlockchainError::InvalidSignature,
            ),
            r is Err ==> final(self).execution_map() == old(self).execution_map(),
            (execution.settlement_proof@.len() > 0 && execution.multi_sig@.len() > 0) ==> {
                &&& r == Ok::<Blake2bHash, BlockchainError>(execution.execution_id)
                &&& final(self).execution_map() == old(self).execution_map().insert(execution.execution_id@, execution)
            },
            final(self).contract_map() == old(self).contract_map(),
            final(self).batch_map() == old(self).batch_map(),
    {
        if !execution.verify_settlement_proof()? {
            return Err(BlockchainError::InvalidProof);
        }
        if !execution.verify_multi_signature()? {
            return Err(BlockchainError::InvalidSignature);
        }
        let execution_id = execution.execution_id;
        self.executions.insert(execution_id, execution);
        Ok(execution_id)
    }

    pub fn get_settlement_contract(&self, contract_id: &Blake2bHash) -> (r: Option<&SettlementContract>)
        ensures
            match r {
                Some(c) => self.contract_map().contains_key(contract_id@) && *c == self.contract_map()[contract_id@],
                None => !self.contract_map().contains_key(contract_id@),
            },
    {
        self.contracts.get(contract_id)
    }

    pub fn get_batch_contract(&self, batch_id: &Blake2bHash) -> (r: Option<&CDRBatchContract>)
        ensures
            match r {
                Some(c) => self.batch_map().contains_key(batch_id@) && *c == self.batch_map()[batch_id@],
                None => !self.batch_map().contains_key(batch_id@),
            },
    {
        self.batch_contracts.get(batch_id)
    }

    pub fn get_execution(&self, execution_id: &Blake2bHash) -> (r: Option<&SettlementExecutionContract>)
        ensures
            match r {
                Some(c) => self.execution_map().contains_key(execution_id@) && *c == self.execution_map()[execution_id@],
                None => !self.execution_map().contains_key(execution_id@),
            },
    {
        self.executions.get(execution_id)
    }
}

} // verus!
