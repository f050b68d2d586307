//! The layer that carries record batches and settlements onto the chain:
//! each is checked, run through its contract on the contract machine where
//! there is one, and turned into the transaction that records it.
use vstd::prelude::*;
use std::sync::Arc;
use crate::blockchain::transaction::{CDRTransaction, SettlementTransaction, Transaction};
use crate::clock::unix_now;
use crate::encoding::{decimal_text, le_bytes, push_decimal_text, push_str, u64_to_le};
use crate::primitives::cdr::{known_networks, validate_network_id, CDRBatch, CDRStatus};
use crate::primitives::error::{BlockchainError, Result};
use crate::primitives::primitives::{hash_data, sha256, Blake2bHash};
use crate::primitives::text::text_bytes;
use crate::smart_contracts::settlement_contract::{
    cdr_validator_program, settlement_executor_program, SettlementContractCompiler,
};
use crate::smart_contracts::vm::{
    program_view, run, stack_limit, start_state, ContractStorage, ContractVM, ExecutionContext, MemoryStorage, VmEnv,
};
use crate::storage::chain_store::{ChainStore, SimpleChainStore};

verus! {

/// Appends bytes.
fn append_bytes(out: &mut Vec<u8>, bytes: &[u8])
    ensures
        final(out)@ == old(out)@ + bytes@,
{
    out.extend_from_slice(bytes);
    proof {
        assert forall|i: int| old(out)@.len() <= i < final(out)@.len() implies final(out)@[i] == bytes@[i
            - old(out)@.len()] by {
            assert(cloned::<u8>(bytes@[i - old(out)@.len()], final(out)@[i]));
        }
        assert(final(out)@ =~= old(out)@ + bytes@);
    }
}

/// Why a batch is refused before any contract runs, if it is.
pub open spec fn batch_problem(b: CDRBatch) -> Option<Seq<char>> {
    if b.home_network@.len() == 0 || b.visited_network@.len() == 0 {
        Some("Network names cannot be empty"@)
    } else if b.total_charges == 0 {
        Some("Total charges must be greater than zero"@)
    } else if !known_networks().contains(b.home_network@) {
        Some("Invalid home network: "@ + b.home_network@)
    } else if !known_networks().contains(b.visited_network@) {
        Some("Invalid visited network: "@ + b.visited_network@)
    } else {
        None
    }
}

/// Bytes of the networks' signatures as the batch validator reads them:
/// each network's name followed by its signature.
pub open spec fn signature_bytes(sigs: Seq<(String, Vec<u8>)>) -> Seq<u8>
    decreases sigs.len(),
{
    if sigs.len() == 0 {
        Seq::empty()
    } else {
        signature_bytes(sigs.drop_last()) + vstd::utf8::encode_utf8(sigs.last().0@) + sigs.last().1@
    }
}

/// Input of the batch validator: the batch identifier, the privacy proof
/// and the networks' signatures.
pub open spec fn validator_input(batch_id: Seq<u8>, proof: Seq<u8>, sigs: Seq<(String, Vec<u8>)>) -> Seq<u8> {
    batch_id + proof + signature_bytes(sigs)
}

/// Input of the settlement executor: the proof, the signature and the
/// amount's eight little-endian bytes.
pub open spec fn executor_input(proof: Seq<u8>, signature: Seq<u8>, amount: u64) -> Seq<u8> {
    proof + signature + le_bytes(amount as nat)
}

/// Address the batch validator is deployed at.
pub open spec fn validator_address() -> Seq<u8> {
    sha256(vstd::utf8::encode_utf8("cdr_validator"@))
}

/// Address the settlement executor is deployed at.
pub open spec fn executor_address() -> Seq<u8> {
    sha256(vstd::utf8::encode_utf8("settlement_executor"@))
}

/// Whether a contract run approves: it raises no error and leaves 1 on top
/// of the stack.
pub open spec fn approves(code: Seq<crate::smart_contracts::vm::Instruction>, env: VmEnv, input: Seq<u8>, vm: ContractVM<
    MemoryStorage,
>) -> bool {
    let (fin, err) = run(code, env, start_state(input, 0, vm.storage().stored()));
    err is None && fin.stack.len() > 0 && fin.stack.last() == 1
}

/// Whether `vm2` is `vm` with a form of `program` deployed at `address`,
/// its keys unchanged.
pub open spec fn deployed(
    vm: ContractVM<MemoryStorage>,
    vm2: ContractVM<MemoryStorage>,
    address: Seq<u8>,
    program: Seq<crate::smart_contracts::vm::InstructionView>,
) -> bool {
    &&& vm2.storage().codes() == vm.storage().codes().insert(address, vm2.storage().codes()[address])
    &&& program_view(vm2.storage().codes()[address]) == program
    &&& vm2.settlement_key() == vm.settlement_key()
    &&& vm2.operators() == vm.operators()
}

/// Setting of a batch validator run for `b` at `now` on `vm`.
pub open spec fn validator_env(b: CDRBatch, now: u64, vm: ContractVM<MemoryStorage>) -> VmEnv {
    VmEnv {
        contract: validator_address(),
        caller: sha256(vstd::utf8::encode_utf8(b.home_network@)),
        timestamp: now,
        gas_limit: 1_000_000,
        settlement_key: vm.settlement_key(),
        operators: vm.operators(),
    }
}

/// Setting of a settlement executor run for `creditor` at `now` on `vm`.
pub open spec fn executor_env(creditor: Seq<char>, now: u64, vm: ContractVM<MemoryStorage>) -> VmEnv {
    VmEnv {
        contract: executor_address(),
        caller: sha256(vstd::utf8::encode_utf8(creditor)),
        timestamp: now,
        gas_limit: 2_000_000,
        settlement_key: vm.settlement_key(),
        operators: vm.operators(),
    }
}

/// Whether `t` records a batch at `now`: its identifier, networks, record
/// count and charges, the privacy proof as its data and no separate proof.
pub open spec fn batch_record(t: Transaction, b: CDRBatch, privacy_proof: Seq<u8>, now: u64) -> bool {
    t matches Transaction::CDRRecord(c) && {
        &&& c.batch_id == b.batch_id
        &&& c.home_network@ == b.home_network@
        &&& c.visited_network@ == b.visited_network@
        &&& c.record_count == b.total_records
        &&& c.total_charges == b.total_charges
        &&& c.encrypted_data@ == privacy_proof
        &&& c.privacy_proof@.len() == 0
        &&& c.timestamp == now
    }
}

/// Text whose digest identifies a settlement: `creditor:debtor:amount`.
pub open spec fn settlement_key_text(creditor: Seq<char>, debtor: Seq<char>, amount: u64) -> Seq<char> {
    creditor + ":"@ + debtor + ":"@ + decimal_text(amount as nat)
}

/// Whether `t` records a settlement at `now`, at the default rate of 1.00.
pub open spec fn settlement_record(
    t: Transaction,
    creditor: Seq<char>,
    debtor: Seq<char>,
    amount: u64,
    currency: Seq<char>,
    refs: Seq<Blake2bHash>,
    proof: Seq<u8>,
    now: u64,
) -> bool {
    t matches Transaction::Settlement(s) && {
        &&& s.settlement_id@ == sha256(vstd::utf8::encode_utf8(settlement_key_text(creditor, debtor, amount)))
        &&& s.creditor_network@ == creditor
        &&& s.debtor_network@ == debtor
        &&& s.amount == amount
        &&& s.currency@ == currency
        &&& s.exchange_rate == 100
        &&& s.settlement_proof@ == proof
        &&& s.batch_references@ == refs
        &&& s.timestamp == now
    }
}

/// What taking a batch onto the chain at `now` gives, from a machine
/// `vm` (if attached) to `vm2`: a refusal naming the batch's problem; with no
/// machine, the transaction recording the batch; with one, the validator
/// deployed and run, and the transaction when it approves.
pub open spec fn batch_outcome(
    vm: Option<ContractVM<MemoryStorage>>,
    vm2: Option<ContractVM<MemoryStorage>>,
    batch: CDRBatch,
    privacy_proof: Seq<u8>,
    sigs: Seq<(String, Vec<u8>)>,
    now: u64,
    r: Result<Transaction>,
) -> bool {
    match batch_problem(batch) {
        Some(m) => vm2 == vm && (r matches Err(BlockchainError::InvalidTransaction(e)) && e@ == m),
        None => match vm {
            None => vm2 is None && (r matches Ok(t) && batch_record(t, batch, privacy_proof, now)),
            Some(v) => {
                let input = validator_input(batch.batch_id@, privacy_proof, sigs);
                &&& vm2 is Some
                &&& deployed(v, vm2->Some_0, validator_address(), cdr_validator_program())
                &&& input.len() > stack_limit() ==> (r matches Err(BlockchainError::StackOverflow))
                &&& input.len() <= stack_limit() ==> if approves(
                    vm2->Some_0.storage().codes()[validator_address()],
                    validator_env(batch, now, v),
                    input,
                    v,
                ) {
                    (r matches Ok(t) && batch_record(t, batch, privacy_proof, now))
                } else {
                    (r matches Err(BlockchainError::InvalidTransaction(e)) && e@ == "Smart contract validation failed"@)
                }
            },
        },
    }
}

/// What settling at `now` gives, from a machine `vm` (if attached) to
/// `vm2`: with no machine, the transaction recording the settlement; with
/// one, the executor deployed and run, and the transaction when it approves.
pub open spec fn settlement_outcome(
    vm: Option<ContractVM<MemoryStorage>>,
    vm2: Option<ContractVM<MemoryStorage>>,
    creditor: Seq<char>,
    debtor: Seq<char>,
    amount: u64,
    currency: Seq<char>,
    refs: Seq<Blake2bHash>,
    proof: Seq<u8>,
    signature: Seq<u8>,
    now: u64,
    r: Result<Transaction>,
) -> bool {
    match vm {
        None => vm2 is None && (r matches Ok(t) && settlement_record(t, creditor, debtor, amount, currency, refs, proof, now)),
        Some(v) => {
            let input = executor_input(proof, signature, amount);
            &&& vm2 is Some
            &&& deployed(v, vm2->Some_0, executor_address(), settlement_executor_program())
            &&& input.len() > stack_limit() ==> (r matches Err(BlockchainError::StackOverflow))
            &&& input.len() <= stack_limit() ==> if approves(
                vm2->Some_0.storage().codes()[executor_address()],
                executor_env(creditor, now, v),
                input,
                v,
            ) {
                (r matches Ok(t) && settlement_record(t, creditor, debtor, amount, currency, refs, proof, now))
            } else {
                (r matches Err(BlockchainError::InvalidTransaction(e)) && e@ == "Settlement contract execution failed"@)
            }
        },
    }
}

/// Carries batches and settlements onto the chain, through the contract
/// machine when one is attached.
pub struct CDRBlockchainAPI<S: ChainStore> {
    chain_store: Arc<S>,
    contract_vm: Option<ContractVM<MemoryStorage>>,
}

impl<S: ChainStore> CDRBlockchainAPI<S> {
    /// The attached contract machine.
    pub closed spec fn vm(&self) -> Option<ContractVM<MemoryStorage>> {
        self.contract_vm
    }

    /// A layer over a chain store, with no contract machine.
    pub fn new(chain_store: Arc<S>) -> (a: Self)
        ensures
            a.vm() is None,
    {
        CDRBlockchainAPI { chain_store, contract_vm: None }
    }

    /// The same layer with a fresh contract machine over memory storage.
    pub fn with_contracts(self) -> (a: Self)
        ensures
            a.vm() matches Some(vm) && vm.storage().stored() == Map::<(Seq<u8>, Seq<u8>), Seq<u8>>::empty()
                && vm.storage().codes() == Map::<Seq<u8>, Seq<crate::smart_contracts::vm::Instruction>>::empty()
                && vm.settlement_key() is None && vm.operators() == Map::<Seq<char>, crate::crypto::PublicKey>::empty(),
    {
        let mut a = self;
        a.contract_vm = Some(ContractVM::new(MemoryStorage::new()));
        a
    }
}

/// Deploys `bytecode` at `address` and runs it on `input` as a call from
/// `caller` at `now` with `gas_limit`; `Ok(true)` when it approves.
fn run_contract(
    vm: &mut ContractVM<MemoryStorage>,
    address: Blake2bHash,
    bytecode: Vec<crate::smart_contracts::vm::Instruction>,
    caller: Blake2bHash,
    now: u64,
    gas_limit: u64,
    input: &[u8],
) -> (r: Result<bool>)
    ensures
        final(vm).storage().codes() == old(vm).storage().codes().insert(address@, bytecode@),
        final(vm).settlement_key() == old(vm).settlement_key(),
        final(vm).operators() == old(vm).operators(),
        input@.len() > stack_limit() ==> r matches Err(BlockchainError::StackOverflow),
        input@.len() <= stack_limit() ==> r == Ok::<bool, BlockchainError>(
            approves(
                bytecode@,
                VmEnv {
                    contract: address@,
                    caller: caller@,
                    timestamp: now,
                    gas_limit,
                    settlement_key: old(vm).settlement_key(),
                    operators: old(vm).operators(),
                },
                input@,
                *old(vm),
            ),
        ),
{
    let ghost code = bytecode@;
    vm.deploy_contract(address, bytecode)?;
    let context = ExecutionContext { contract_address: address, caller, timestamp: now, gas_limit, gas_used: 0, value: 0 };
    let result = vm.execute(context, input)?;
    let approved = result.success && match result.return_value {
        Some(v) => v == 1,
        None => false,
    };
    Ok(approved)
}

impl<S: ChainStore> CDRBlockchainAPI<S> {
    /// Checks a batch before any contract runs: both networks named, some
    /// charge, and both networks known to the consortium.
    pub fn validate_cdr_batch(&self, batch: &CDRBatch) -> (r: Result<()>)
        ensures
            match batch_problem(*batch) {
                None => r is Ok,
                Some(m) => r matches Err(BlockchainError::InvalidTransaction(e)) && e@ == m,
            },
    {
        if batch.home_network.as_str().unicode_len() == 0 || batch.visited_network.as_str().unicode_len() == 0 {
            return Err(BlockchainError::InvalidTransaction("Network names cannot be empty".to_string()));
        }
        if batch.total_charges == 0 {
            return Err(BlockchainError::InvalidTransaction("Total charges must be greater than zero".to_string()));
        }
        if validate_network_id(batch.home_network.as_str()).is_err() {
            let mut m = "Invalid home network: ".to_string();
            m.append(batch.home_network.as_str());
            return Err(BlockchainError::InvalidTransaction(m));
        }
        if validate_network_id(batch.visited_network.as_str()).is_err() {
            let mut m = "Invalid visited network: ".to_string();
            m.append(batch.visited_network.as_str());
            return Err(BlockchainError::InvalidTransaction(m));
        }
        Ok(())
    }

    /// Runs the batch validator contract on a batch at `now`: deployed at
    /// its address, called by the digest of the home network's name with
    /// the batch identifier, the privacy proof and the signatures as input.
    fn execute_cdr_validation_contract(
        vm: &mut ContractVM<MemoryStorage>,
        batch: &CDRBatch,
        privacy_proof: &[u8],
        signatures: &Vec<(String, Vec<u8>)>,
        now: u64,
    ) -> (r: Result<bool>)
        ensures
            deployed(*old(vm), *final(vm), validator_address(), cdr_validator_program()),
            validator_input(batch.batch_id@, privacy_proof@, signatures@).len() > stack_limit() ==> r matches Err(
                BlockchainError::StackOverflow,
            ),
            validator_input(batch.batch_id@, privacy_proof@, signatures@).len() <= stack_limit() ==> r == Ok::<
                bool,
                BlockchainError,
            >(
                approves(
                    final(vm).storage().codes()[validator_address()],
                    validator_env(*batch, now, *old(vm)),
                    validator_input(batch.batch_id@, privacy_proof@, signatures@),
                    *old(vm),
                ),
            ),
    {
        let contract_addr = hash_data(text_bytes(&"cdr_validator".to_string()).as_slice());
        let bytecode = SettlementContractCompiler::compile_cdr_batch_validator();
        let mut input_data: Vec<u8> = Vec::new();
        append_bytes(&mut input_data, batch.batch_id.as_bytes().as_slice());
        append_bytes(&mut input_data, privacy_proof);
        let mut i: usize = 0;
        assert(signatures@.take(0) =~= Seq::<(String, Vec<u8>)>::empty());
        while i < signatures.len()
            invariant
                0 <= i <= signatures@.len(),
                input_data@ == batch.batch_id@ + privacy_proof@ + signature_bytes(signatures@.take(i as int)),
            decreases signatures@.len() - i,
        {
            let (network, sig) = &signatures[i];
            push_str(&mut input_data, network.as_str());
            append_bytes(&mut input_data, sig.as_slice());
            assert(signatures@.take(i + 1).drop_last() =~= signatures@.take(i as int));
            i = i + 1;
            assert(input_data@ =~= batch.batch_id@ + privacy_proof@ + signature_bytes(signatures@.take(i as int)));
        }
        assert(signatures@.take(signatures@.len() as int) =~= signatures@);
        let caller = hash_data(text_bytes(&batch.home_network).as_slice());
        run_contract(vm, contract_addr, bytecode, caller, now, 1_000_000, input_data.as_slice())
    }

    /// Takes a batch onto the chain at `now`: it is checked, the batch
    /// validator must approve it where a contract machine is attached, and
    /// the transaction recording it is returned.
    pub fn process_cdr_batch_at(
        &mut self,
        batch: CDRBatch,
        privacy_proof: Vec<u8>,
        network_signatures: Vec<(String, Vec<u8>)>,
        now: u64,
    ) -> (r: Result<Transaction>)
        ensures
            batch_outcome(old(self).vm(), final(self).vm(), batch, privacy_proof@, network_signatures@, now, r),
    {
        self.validate_cdr_batch(&batch)?;
        match &mut self.contract_vm {
            Some(vm) => {
                let approved = Self::execute_cdr_validation_contract(
                    vm,
                    &batch,
                    privacy_proof.as_slice(),
                    &network_signatures,
                    now,
                )?;
                if !approved {
                    return Err(BlockchainError::InvalidTransaction("Smart contract validation failed".to_string()));
                }
            },
            None => {},
        }
        Ok(
            Transaction::CDRRecord(
                CDRTransaction {
                    batch_id: batch.batch_id,
                    home_network: batch.home_network,
                    visited_network: batch.visited_network,
                    record_count: batch.total_records,
                    total_charges: batch.total_charges,
                    encrypted_data: privacy_proof,
                    privacy_proof: Vec::new(),
                    timestamp: now,
                },
            ),
        )
    }
}

impl<S: ChainStore> CDRBlockchainAPI<S> {
    /// Runs the settlement executor contract at `now`: deployed at its
    /// address, called by the digest of the creditor's name with the proof,
    /// the signature and the amount as input.
    fn execute_settlement_contract(
        vm: &mut ContractVM<MemoryStorage>,
        creditor: &str,
        amount: u64,
        proof: &[u8],
        signature: &[u8],
        now: u64,
    ) -> (r: Result<bool>)
        ensures
            deployed(*old(vm), *final(vm), executor_address(), settlement_executor_program()),
            executor_input(proof@, signature@, amount).len() > stack_limit() ==> r matches Err(
                BlockchainError::StackOverflow,
            ),
            executor_input(proof@, signature@, amount).len() <= stack_limit() ==> r == Ok::<bool, BlockchainError>(
                approves(
                    final(vm).storage().codes()[executor_address()],
                    executor_env(creditor@, now, *old(vm)),
                    executor_input(proof@, signature@, amount),
                    *old(vm),
                ),
            ),
    {
        let contract_addr = hash_data(text_bytes(&"settlement_executor".to_string()).as_slice());
        let bytecode = SettlementContractCompiler::compile_settlement_executor();
        let mut input_data: Vec<u8> = Vec::new();
        append_bytes(&mut input_data, proof);
        append_bytes(&mut input_data, signature);
        let amount_bytes = u64_to_le(amount);
        append_bytes(&mut input_data, amount_bytes.as_slice());
        let caller = hash_data(text_bytes(&creditor.to_string()).as_slice());
        run_contract(vm, contract_addr, bytecode, caller, now, 2_000_000, input_data.as_slice())
    }

    /// Settles `net_amount` from a debtor to a creditor at `now`: the
    /// settlement executor must approve it where a contract machine is
    /// attached, and the transaction recording it is returned.
    pub fn execute_settlement_at(
        &mut self,
        creditor_network: String,
        debtor_network: String,
        net_amount: u64,
        currency: String,
        batch_references: Vec<Blake2bHash>,
        settlement_proof: Vec<u8>,
        multi_signature: Vec<u8>,
        now: u64,
    ) -> (r: Result<Transaction>)
        ensures
            settlement_outcome(
                old(self).vm(),
                final(self).vm(),
                creditor_network@,
                debtor_network@,
                net_amount,
                currency@,
                batch_references@,
                settlement_proof@,
                multi_signature@,
                now,
                r,
            ),
    {
        match &mut self.contract_vm {
            Some(vm) => {
                let approved = Self::execute_settlement_contract(
                    vm,
                    creditor_network.as_str(),
                    net_amount,
                    settlement_proof.as_slice(),
                    multi_signature.as_slice(),
                    now,
                )?;
                if !approved {
                    return Err(BlockchainError::InvalidTransaction("Settlement contract execution failed".to_string()));
                }
            },
            None => {},
        }
        let mut key = creditor_network.clone();
        key.append(":");
        key.append(debtor_network.as_str());
        key.append(":");
        push_decimal_text(&mut key, net_amount);
        proof {
            reveal_strlit(":");
        }
        assert(key@ =~= settlement_key_text(creditor_network@, debtor_network@, net_amount));
        let settlement_id = hash_data(text_bytes(&key).as_slice());
        Ok(
            Transaction::Settlement(
                SettlementTransaction {
                    settlement_id,
                    creditor_network,
                    debtor_network,
                    amount: net_amount,
                    currency,
                    exchange_rate: 100,
                    settlement_proof,
                    batch_references,
                    timestamp: now,
                },
            ),
        )
    }

    /// `process_cdr_batch_at` at the present time of the system clock.
    pub fn process_cdr_batch(
        &mut self,
        batch: CDRBatch,
        privacy_proof: Vec<u8>,
        network_signatures: Vec<(String, Vec<u8>)>,
    ) -> (r: Result<Transaction>)
        ensures
            exists|now: u64|
                #[trigger] batch_outcome(old(self).vm(), final(self).vm(), batch, privacy_proof@, network_signatures@, now, r),
    {
        let now = unix_now();
        self.process_cdr_batch_at(batch, privacy_proof, network_signatures, now)
    }

    /// `execute_settlement_at` at the present time of the system clock.
    pub fn execute_settlement(
        &mut self,
        creditor_network: String,
        debtor_network: String,
        net_amount: u64,
        currency: String,
        batch_references: Vec<Blake2bHash>,
        settlement_proof: Vec<u8>,
        multi_signature: Vec<u8>,
    ) -> (r: Result<Transaction>)
        ensures
            exists|now: u64|
                #[trigger] settlement_outcome(
                    old(self).vm(),
                    final(self).vm(),
                    creditor_network@,
                    debtor_network@,
                    net_amount,
                    currency@,
                    batch_references@,
                    settlement_proof@,
                    multi_signature@,
                    now,
                    r,
                ),
    {
        let now = unix_now();
        self.execute_settlement_at(
            creditor_network,
            debtor_network,
            net_amount,
            currency,
            batch_references,
            settlement_proof,
            multi_signature,
            now,
        )
    }

    /// Status of a batch on the chain: the chain is not searched yet, so
    /// every batch is reported pending.
    pub fn get_cdr_batch_status(&self, batch_id: &Blake2bHash) -> (r: Result<Option<CDRStatus>>)
        ensures
            r == Ok::<Option<CDRStatus>, BlockchainError>(Some(CDRStatus::Pending)),
    {
        Ok(Some(CDRStatus::Pending))
    }

    /// Settlements between two networks over a period, as identifier,
    /// amount and currency: the chain is not searched yet, so there are
    /// none.
    pub fn get_settlement_history(
        &self,
        network1: &str,
        network2: &str,
        from_timestamp: u64,
        to_timestamp: u64,
    ) -> (r: Result<Vec<(Blake2bHash, u64, String)>>)
        ensures
            r matches Ok(v) && v@.len() == 0,
    {
        Ok(Vec::new())
    }
}

/// Batches and settlements of the consortium, carried onto an in-memory
/// chain through a fresh contract machine.
pub struct CDRReconciliationAPI {
    blockchain_api: CDRBlockchainAPI<SimpleChainStore>,
}

impl CDRReconciliationAPI {
    /// The machine over which batches and settlements run.
    pub closed spec fn vm(&self) -> Option<ContractVM<MemoryStorage>> {
        self.blockchain_api.vm()
    }

    pub fn new() -> (a: Self)
        ensures
            a.vm() matches Some(vm) && vm.storage().stored() == Map::<(Seq<u8>, Seq<u8>), Seq<u8>>::empty()
                && vm.storage().codes() == Map::<Seq<u8>, Seq<crate::smart_contracts::vm::Instruction>>::empty(),
    {
        let chain_store = Arc::new(SimpleChainStore::new());
        let blockchain_api = CDRBlockchainAPI::new(chain_store).with_contracts();
        CDRReconciliationAPI { blockchain_api }
    }

    /// Submits the batch between two networks over a period with its
    /// total charges, validated, and takes it onto the chain (see
    /// `CDRBlockchainAPI::process_cdr_batch`).
    pub fn submit_cdr_batch(
        &mut self,
        home_network: String,
        visited_network: String,
        period_start: u64,
        period_end: u64,
        total_charges: u64,
        privacy_proof: Vec<u8>,
        network_signatures: Vec<(String, Vec<u8>)>,
    ) -> (r: Result<Transaction>)
        ensures
            exists|b: CDRBatch, now: u64|
                #![trigger batch_outcome(old(self).vm(), final(self).vm(), b, privacy_proof@, network_signatures@, now, r)]
                {
                    &&& b.batch_id@ == sha256(
                        crate::primitives::cdr::batch_key(home_network@, visited_network@, period_start, period_end),
                    )
                    &&& b.home_network@ == home_network@
                    &&& b.visited_network@ == visited_network@
                    &&& b.period_start == period_start
                    &&& b.period_end == period_end
                    &&& b.total_records == 0
                    &&& b.total_charges == total_charges
                    &&& b.status == CDRStatus::Validated
                    &&& batch_outcome(old(self).vm(), final(self).vm(), b, privacy_proof@, network_signatures@, now, r)
                },
    {
        let mut batch = CDRBatch::new(home_network, visited_network, period_start, period_end);
        batch.total_charges = total_charges;
        batch.mark_validated();
        self.blockchain_api.process_cdr_batch(batch, privacy_proof, network_signatures)
    }

    /// Settles between two networks (see `CDRBlockchainAPI::execute_settlement`).
    pub fn execute_settlement(
        &mut self,
        creditor_network: String,
        debtor_network: String,
        net_amount: u64,
        currency: String,
        batch_references: Vec<Blake2bHash>,
        settlement_proof: Vec<u8>,
        multi_signature: Vec<u8>,
    ) -> (r: Result<Transaction>)
        ensures
            exists|now: u64|
                #[trigger] settlement_outcome(
                    old(self).vm(),
                    final(self).vm(),
                    creditor_network@,
                    debtor_network@,
                    net_amount,
                    currency@,
                    batch_references@,
                    settlement_proof@,
                    multi_signature@,
                    now,
                    r,
                ),
    {
        self.blockchain_api.execute_settlement(
            creditor_network,
            debtor_network,
            net_amount,
            currency,
            batch_references,
            settlement_proof,
            multi_signature,
        )
    }

    /// Status of a batch: always pending (see
    /// `CDRBlockchainAPI::get_cdr_batch_status`).
    pub fn get_batch_status(&self, batch_id: &Blake2bHash) -> (r: Result<Option<CDRStatus>>)
        ensures
            r == Ok::<Option<CDRStatus>, BlockchainError>(Some(CDRStatus::Pending)),
    {
        self.blockchain_api.get_cdr_batch_status(batch_id)
    }
}

/// The batch check accepts a batch exactly when both its networks are
/// named, are among the consortium's networks and its charges are not zero;
/// an empty name is refused first, then zero charges, then an unknown home
/// network, then an unknown visited one.
pub proof fn law_batch_check(b: CDRBatch)
    ensures
        batch_problem(b) is None <==> (b.home_network@.len() > 0 && b.visited_network@.len() > 0 && b.total_charges > 0
            && known_networks().contains(b.home_network@) && known_networks().contains(b.visited_network@)),
        b.total_charges == 0 && b.home_network@.len() > 0 && b.visited_network@.len() > 0 ==> batch_problem(b) == Some(
            "Total charges must be greater than zero"@,
        ),
        (b.home_network@.len() == 0 || b.visited_network@.len() == 0) ==> batch_problem(b) == Some(
            "Network names cannot be empty"@,
        ),
{
}

} // verus!
