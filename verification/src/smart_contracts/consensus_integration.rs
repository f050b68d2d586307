//! Contract transactions within consensus: deploying and calling contracts
//! on the machine, the receipts of those calls, and the pool of pending
//! calls.
use vstd::prelude::*;
use crate::blockchain::transaction::{SettlementTransaction, Transaction};
use crate::clock::unix_now;
use crate::encoding::{le_bytes, u64_to_le};
use crate::primitives::error::{BlockchainError, Result};
use crate::primitives::primitives::{hash_data, hash_eq, sha256, Blake2bHash};
use crate::smart_contracts::crypto_verifier::ContractCryptoVerifier;
use crate::smart_contracts::vm::{
    log_texts, run, stack_limit, start_state, vm_env, ContractStorage, ContractVM, ExecutionContext, ExecutionResult,
    Instruction, VmEnv, VmState,
};

verus! {

/// A call of a contract.
#[derive(Debug)]
pub struct ContractTransaction {
    pub contract_address: Blake2bHash,
    pub caller: Blake2bHash,
    pub input_data: Vec<u8>,
    pub gas_limit: u64,
    pub value: u64,
    pub nonce: u64,
}

/// A deployment of a contract.
#[derive(Debug)]
pub struct ContractDeployment {
    pub deployer: Blake2bHash,
    pub bytecode: Vec<Instruction>,
    pub constructor_data: Vec<u8>,
    pub gas_limit: u64,
    pub value: u64,
    pub nonce: u64,
}

/// The receipt of a deployment or a call.
#[derive(Debug)]
pub struct ContractReceipt {
    pub transaction_hash: Blake2bHash,
    pub contract_address: Blake2bHash,
    pub success: bool,
    pub gas_used: u64,
    pub return_value: Option<u64>,
    pub logs: Vec<String>,
    pub error: Option<String>,
    pub block_number: u32,
    pub transaction_index: u32,
}

/// Plain model of a receipt.
pub struct ReceiptView {
    pub transaction_hash: Seq<u8>,
    pub contract_address: Seq<u8>,
    pub success: bool,
    pub gas_used: u64,
    pub return_value: Option<u64>,
    pub logs: Seq<Seq<char>>,
    pub error: Option<Seq<char>>,
    pub block_number: u32,
    pub transaction_index: u32,
}

/// Text of an optional string.
pub open spec fn opt_text(o: Option<String>) -> Option<Seq<char>> {
    match o {
        Some(s) => Some(s@),
        None => None,
    }
}

impl View for ContractReceipt {
    type V = ReceiptView;

    open spec fn view(&self) -> ReceiptView {
        ReceiptView {
            transaction_hash: self.transaction_hash@,
            contract_address: self.contract_address@,
            success: self.success,
            gas_used: self.gas_used,
            return_value: self.return_value,
            logs: log_texts(self.logs@),
            error: opt_text(self.error),
            block_number: self.block_number,
            transaction_index: self.transaction_index,
        }
    }
}

/// Whether a receipt reports a run's end, as an execution result does.
pub open spec fn receipt_reports(r: ReceiptView, fin: VmState, err: Option<Seq<char>>) -> bool {
    &&& r.success == (err is None)
    &&& r.return_value == (if err is None && fin.stack.len() > 0 { Some(fin.stack.last()) } else { None::<u64> })
    &&& r.gas_used == fin.gas_used
    &&& r.logs == fin.logs
    &&& r.error == err
}

/// Address of a contract deployed by `deployer` with `nonce`: the digest of
/// the deployer's address and the nonce's little-endian bytes.
pub open spec fn contract_address_of(deployer: Seq<u8>, nonce: u64) -> Seq<u8> {
    sha256(deployer + le_bytes(nonce as nat))
}

/// Number of settlement transactions in a list.
pub open spec fn settlement_count(s: Seq<Transaction>) -> nat
    decreases s.len(),
{
    if s.len() == 0 {
        0
    } else {
        settlement_count(s.drop_last()) + if s.last() is Settlement { 1nat } else { 0nat }
    }
}

/// Position of the first receipt with a transaction hash, if any.
pub open spec fn first_receipt(s: Seq<ReceiptView>, h: Seq<u8>) -> Option<int>
    decreases s.len(),
{
    if s.len() == 0 {
        None
    } else if s[0].transaction_hash == h {
        Some(0)
    } else {
        match first_receipt(s.drop_first(), h) {
            Some(i) => Some(i + 1),
            None => None,
        }
    }
}

proof fn lemma_first_receipt(s: Seq<ReceiptView>, h: Seq<u8>, i: int)
    requires
        0 <= i <= s.len(),
        forall|j: int| 0 <= j < i ==> s[j].transaction_hash != h,
    ensures
        i < s.len() && s[i].transaction_hash == h ==> first_receipt(s, h) == Some(i),
        i == s.len() ==> first_receipt(s, h) is None,
    decreases s.len(),
{
    if s.len() > 0 && i > 0 {
        lemma_first_receipt(s.drop_first(), h, i - 1);
    }
}

/// Most gas a transaction may ask for.
pub open spec fn max_transaction_gas() -> u64 {
    10_000_000
}

fn copy_texts(v: &Vec<String>) -> (c: Vec<String>)
    ensures
        log_texts(c@) == log_texts(v@),
{
    let mut c: Vec<String> = Vec::new();
    let mut i: usize = 0;
    while i < v.len()
        invariant
            0 <= i <= v@.len(),
            c@.len() == i,
            forall|j: int| 0 <= j < i ==> (#[trigger] c@[j])@ == v@[j]@,
        decreases v@.len() - i,
    {
        c.push(v[i].clone());
        i = i + 1;
    }
    assert(log_texts(c@) =~= log_texts(v@));
    c
}

impl ContractReceipt {
    /// A copy with the same model.
    pub fn copy_receipt(&self) -> (c: Self)
        ensures
            c@ == self@,
    {
        ContractReceipt {
            transaction_hash: self.transaction_hash,
            contract_address: self.contract_address,
            success: self.success,
            gas_used: self.gas_used,
            return_value: self.return_value,
            logs: copy_texts(&self.logs),
            error: match &self.error {
                Some(e) => Some(e.clone()),
                None => None,
            },
            block_number: self.block_number,
            transaction_index: self.transaction_index,
        }
    }
}

/// Runs contracts on the machine as blocks are processed, and keeps their
/// receipts and the calls waiting for a block.
pub struct ConsensusContractEngine<S: ContractStorage> {
    vm: ContractVM<S>,
    crypto_verifier: ContractCryptoVerifier,
    pending_transactions: Vec<ContractTransaction>,
    receipts: Vec<ContractReceipt>,
}

impl<S: ContractStorage> ConsensusContractEngine<S> {
    /// The machine.
    pub closed spec fn machine(&self) -> ContractVM<S> {
        self.vm
    }

    /// Calls waiting for a block, oldest first.
    pub closed spec fn pending(&self) -> Seq<ContractTransaction> {
        self.pending_transactions@
    }

    /// Receipts, oldest first.
    pub closed spec fn receipt_log(&self) -> Seq<ReceiptView> {
        self.receipts@.map_values(|r: ContractReceipt| r@)
    }

    /// An engine over `storage`; its machine starts with no keys.
    pub fn new(storage: S, crypto_verifier: ContractCryptoVerifier) -> (e: Self)
        ensures
            e.machine().storage() == storage,
            e.machine().settlement_key() is None,
            e.pending().len() == 0,
            e.receipt_log().len() == 0,
    {
        let e = ConsensusContractEngine {
            vm: ContractVM::new(storage),
            crypto_verifier,
            pending_transactions: Vec::new(),
            receipts: Vec::new(),
        };
        assert(e.receipt_log() =~= Seq::<ReceiptView>::empty());
        e
    }

    /// The address of a contract deployed by `deployer` with `nonce`.
    fn generate_contract_address(&self, deployer: &Blake2bHash, nonce: u64) -> (h: Blake2bHash)
        ensures
            h@ == contract_address_of(deployer@, nonce),
    {
        let mut data: Vec<u8> = Vec::new();
        data.extend_from_slice(deployer.as_bytes().as_slice());
        let mut le = u64_to_le(nonce);
        data.append(&mut le);
        proof {
            assert(data@ =~= deployer@ + le_bytes(nonce as nat)) by {
                assert forall|i: int| 0 <= i < 32 implies data@[i] == deployer@[i] by {
                    assert(cloned::<u8>(deployer@[i], data@[i]));
                }
            }
        }
        hash_data(data.as_slice())
    }

    /// Records a receipt.
    fn store_receipt(&mut self, receipt: &ContractReceipt)
        ensures
            final(self).receipt_log() == old(self).receipt_log().push(receipt@),
            final(self).machine() == old(self).machine(),
            final(self).pending() == old(self).pending(),
    {
        self.receipts.push(receipt.copy_receipt());
        assert(self.receipt_log() =~= old(self).receipt_log().push(receipt@));
    }

    /// Deploys a contract at the address of its deployer and nonce, at time
    /// `timestamp`, and runs its constructor on the constructor data when
    /// there is any; `deployment_json` is the deployment's JSON, whose digest
    /// names the receipt.
    pub fn deploy_contract_at(
        &mut self,
        deployment: ContractDeployment,
        deployment_json: &[u8],
        block_number: u32,
        timestamp: u64,
    ) -> (r: Result<(Blake2bHash, ContractReceipt)>)
        ensures
            final(self).pending() == old(self).pending(),
            old(self).machine().storage().reliable() ==> {
                let addr = contract_address_of(deployment.deployer@, deployment.nonce);
                let env = VmEnv {
                    contract: addr,
                    caller: deployment.deployer@,
                    timestamp,
                    gas_limit: deployment.gas_limit,
                    settlement_key: old(self).machine().settlement_key(),
                    operators: old(self).machine().operators(),
                };
                &&& final(self).machine().storage().codes() == old(self).machine().storage().codes().insert(
                    addr,
                    deployment.bytecode@,
                )
                &&& if deployment.constructor_data@.len() == 0 {
                    &&& r matches Ok((a, rc)) && a@ == addr && {
                        &&& rc@.transaction_hash == sha256(deployment_json@)
                        &&& rc@.contract_address == addr
                        &&& rc@.success
                        &&& rc@.gas_used == 100
                        &&& rc@.return_value is None
                        &&& rc@.logs == seq!["Contract deployed"@]
                        &&& rc@.error is None
                        &&& rc@.block_number == block_number
                        &&& rc@.transaction_index == 0
                        &&& final(self).receipt_log() == old(self).receipt_log().push(rc@)
                    }
                } else if deployment.constructor_data@.len() > stack_limit() {
                    r matches Err(BlockchainError::StackOverflow)
                } else {
                    let (fin, err) = run(
                        deployment.bytecode@,
                        env,
                        start_state(deployment.constructor_data@, 0, old(self).machine().storage().stored()),
                    );
                    r matches Ok((a, rc)) && {
                        &&& a@ == addr
                        &&& rc@.transaction_hash == sha256(deployment_json@)
                        &&& rc@.contract_address == addr
                        &&& receipt_reports(rc@, fin, err)
                        &&& rc@.block_number == block_number
                        &&& rc@.transaction_index == 0
                        &&& final(self).receipt_log() == old(self).receipt_log().push(rc@)
                        &&& final(self).machine().storage().stored() == fin.stored
                    }
                }
            },
    {
        let contract_address = self.generate_contract_address(&deployment.deployer, deployment.nonce);
        let context = ExecutionContext {
            contract_address,
            caller: deployment.deployer,
            timestamp,
            gas_limit: deployment.gas_limit,
            gas_used: 0,
            value: deployment.value,
        };
        let ContractDeployment { deployer: _, bytecode, constructor_data, gas_limit: _, value: _, nonce: _ } = deployment;
        self.vm.deploy_contract(contract_address, bytecode)?;
        let execution_result = if constructor_data.len() > 0 {
            self.vm.execute(context, constructor_data.as_slice())?
        } else {
            let mut logs: Vec<String> = Vec::new();
            logs.push("Contract deployed".to_string());
            ExecutionResult { success: true, return_value: None, gas_used: 100, logs, error: None }
        };
        let receipt = ContractReceipt {
            transaction_hash: hash_data(deployment_json),
            contract_address,
            success: execution_result.success,
            gas_used: execution_result.gas_used,
            return_value: execution_result.return_value,
            logs: execution_result.logs,
            error: execution_result.error,
            block_number,
            transaction_index: 0,
        };
        self.store_receipt(&receipt);
        proof {
            assert(receipt@.logs =~= log_texts(receipt.logs@));
        }
        Ok((contract_address, receipt))
    }

    /// `deploy_contract_at` at the current time.
    pub fn deploy_contract(&mut self, deployment: ContractDeployment, deployment_json: &[u8], block_number: u32) -> (r: Result<(Blake2bHash, ContractReceipt)>)
        ensures
            final(self).pending() == old(self).pending(),
            old(self).machine().storage().reliable() ==> final(self).machine().storage().codes() == old(self).machine().storage().codes().insert(
                contract_address_of(deployment.deployer@, deployment.nonce),
                deployment.bytecode@,
            ),
    {
        let timestamp = unix_now();
        self.deploy_contract_at(deployment, deployment_json, block_number, timestamp)
    }

    /// Calls a contract at time `timestamp`; `transaction_json` is the
    /// transaction's JSON, whose digest names the receipt. Refused as the
    /// machine refuses the call.
    pub fn execute_transaction_at(
        &mut self,
        transaction: ContractTransaction,
        transaction_json: &[u8],
        block_number: u32,
        transaction_index: u32,
        timestamp: u64,
    ) -> (r: Result<ContractReceipt>)
        ensures
            final(self).pending() == old(self).pending(),
            final(self).machine().storage().codes() == old(self).machine().storage().codes(),
            final(self).machine().storage().reliable() == old(self).machine().storage().reliable(),
            r matches Ok(rc) ==> rc@.transaction_hash == sha256(transaction_json@) && rc@.contract_address
                == transaction.contract_address@ && rc@.block_number == block_number && rc@.transaction_index
                == transaction_index,
            old(self).machine().storage().reliable() ==> match old(self).machine().storage().codes().get(
                transaction.contract_address@,
            ) {
                None => r matches Err(BlockchainError::ContractNotFound),
                Some(code) => if transaction.input_data@.len() > stack_limit() {
                    r matches Err(BlockchainError::StackOverflow)
                } else {
                    let env = VmEnv {
                        contract: transaction.contract_address@,
                        caller: transaction.caller@,
                        timestamp,
                        gas_limit: transaction.gas_limit,
                        settlement_key: old(self).machine().settlement_key(),
                        operators: old(self).machine().operators(),
                    };
                    let (fin, err) = run(code, env, start_state(transaction.input_data@, 0, old(self).machine().storage().stored()));
                    r matches Ok(rc) && {
                        &&& rc@.transaction_hash == sha256(transaction_json@)
                        &&& rc@.contract_address == transaction.contract_address@
                        &&& receipt_reports(rc@, fin, err)
                        &&& rc@.block_number == block_number
                        &&& rc@.transaction_index == transaction_index
                        &&& final(self).receipt_log() == old(self).receipt_log().push(rc@)
                        &&& final(self).machine().storage().stored() == fin.stored
                    }
                },
            },
    {
        let context = ExecutionContext {
            contract_address: transaction.contract_address,
            caller: transaction.caller,
            timestamp,
            gas_limit: transaction.gas_limit,
            gas_used: 0,
            value: transaction.value,
        };
        let execution_result = self.vm.execute(context, transaction.input_data.as_slice())?;
        let receipt = ContractReceipt {
            transaction_hash: hash_data(transaction_json),
            contract_address: transaction.contract_address,
            success: execution_result.success,
            gas_used: execution_result.gas_used,
            return_value: execution_result.return_value,
            logs: execution_result.logs,
            error: execution_result.error,
            block_number,
            transaction_index,
        };
        self.store_receipt(&receipt);
        Ok(receipt)
    }

    /// `execute_transaction_at` at the current time.
    pub fn execute_transaction(
        &mut self,
        transaction: ContractTransaction,
        transaction_json: &[u8],
        block_number: u32,
        transaction_index: u32,
    ) -> (r: Result<ContractReceipt>)
        ensures
            final(self).pending() == old(self).pending(),
            final(self).machine().storage().codes() == old(self).machine().storage().codes(),
            old(self).machine().storage().reliable() && !old(self).machine().storage().codes().contains_key(
                transaction.contract_address@,
            ) ==> r matches Err(BlockchainError::ContractNotFound),
            r matches Ok(rc) ==> rc@.transaction_hash == sha256(transaction_json@) && rc@.contract_address
                == transaction.contract_address@ && rc@.block_number == block_number && rc@.transaction_index
                == transaction_index,
    {
        let timestamp = unix_now();
        self.execute_transaction_at(transaction, transaction_json, block_number, transaction_index, timestamp)
    }

    /// The contract call a settlement transaction makes: the settlement
    /// contract, called by the creditor network with the transaction's
    /// encoding as input.
    pub fn settlement_to_contract_tx(&self, settlement_tx: &SettlementTransaction, input_data: Vec<u8>) -> (r: Result<ContractTransaction>)
        ensures
            r matches Ok(tx) && {
                &&& tx.contract_address@ == sha256(vstd::utf8::encode_utf8("settlement_contract"@))
                &&& tx.caller@ == sha256(vstd::utf8::encode_utf8(settlement_tx.creditor_network@))
                &&& tx.input_data == input_data
                &&& tx.gas_limit == 1_000_000
                &&& tx.value == 0
                &&& tx.nonce == 0
            },
    {
        let settlement_contract_addr = hash_data("settlement_contract".as_bytes());
        let caller = hash_data(settlement_tx.creditor_network.as_str().as_bytes());
        Ok(ContractTransaction {
            contract_address: settlement_contract_addr,
            caller,
            input_data,
            gas_limit: 1_000_000,
            value: 0,
            nonce: 0,
        })
    }

    /// Runs the contract calls of a block's settlement transactions, in
    /// order, at time `timestamp`; other transactions call nothing. For the
    /// transaction at index `i`, `encodings[i]` holds, for a settlement, its
    /// JSON and the JSON of the contract call it makes; a settlement without
    /// them is refused as unencodable. The first refused call refuses the
    /// block.
    pub fn process_block_transactions_at(
        &mut self,
        transactions: &[Transaction],
        encodings: &[Option<(Vec<u8>, Vec<u8>)>],
        block_number: u32,
        timestamp: u64,
    ) -> (r: Result<Vec<ContractReceipt>>)
        requires
            encodings@.len() == transactions@.len(),
            transactions@.len() <= u32::MAX,
        ensures
            final(self).pending() == old(self).pending(),
            r matches Ok(receipts) ==> receipts@.len() == settlement_count(transactions@),
            r matches Ok(receipts) ==> forall|k: int|
                0 <= k < receipts@.len() ==> #[trigger] receipts@[k]@.block_number == block_number,
    {
        let mut receipts: Vec<ContractReceipt> = Vec::new();
        let mut index: usize = 0;
        while index < transactions.len()
            invariant
                0 <= index <= transactions@.len(),
                encodings@.len() == transactions@.len(),
                transactions@.len() <= u32::MAX,
                self.pending() == old(self).pending(),
                receipts@.len() == settlement_count(transactions@.subrange(0, index as int)),
                forall|k: int| 0 <= k < receipts@.len() ==> #[trigger] receipts@[k]@.block_number == block_number,
            decreases transactions@.len() - index,
        {
            proof {
                assert(transactions@.subrange(0, index + 1).drop_last() =~= transactions@.subrange(0, index as int));
            }
            match &transactions[index] {
                Transaction::Settlement(settlement_tx) => {
                    let (settlement_json, contract_json) = match &encodings[index] {
                        Some(e) => (&e.0, &e.1),
                        None => {
                            return Err(BlockchainError::InvalidTransaction("Serialization error".to_string()));
                        },
                    };
                    let input_data = crate::smart_contracts::vm::copy_bytes(settlement_json);
                    let contract_tx = self.settlement_to_contract_tx(settlement_tx, input_data)?;
                    let receipt = self.execute_transaction_at(
                        contract_tx,
                        contract_json.as_slice(),
                        block_number,
                        index as u32,
                        timestamp,
                    )?;
                    receipts.push(receipt);
                },
                _ => {},
            }
            index = index + 1;
        }
        proof {
            assert(transactions@.subrange(0, transactions@.len() as int) =~= transactions@);
        }
        Ok(receipts)
    }

    /// `process_block_transactions_at` at the current time.
    pub fn process_block_transactions(
        &mut self,
        transactions: &[Transaction],
        encodings: &[Option<(Vec<u8>, Vec<u8>)>],
        block_number: u32,
    ) -> (r: Result<Vec<ContractReceipt>>)
        requires
            encodings@.len() == transactions@.len(),
            transactions@.len() <= u32::MAX,
        ensures
            final(self).pending() == old(self).pending(),
            r matches Ok(receipts) ==> receipts@.len() == settlement_count(transactions@),
    {
        let timestamp = unix_now();
        self.process_block_transactions_at(transactions, encodings, block_number, timestamp)
    }

    /// Adds a call to the pool.
    pub fn add_pending_transaction(&mut self, transaction: ContractTransaction) -> (r: Result<()>)
        ensures
            r is Ok,
            final(self).pending() == old(self).pending().push(transaction),
            final(self).receipt_log() == old(self).receipt_log(),
    {
        self.pending_transactions.push(transaction);
        Ok(())
    }

    /// Takes the oldest `limit` calls (all, when there are fewer) out of the
    /// pool.
    pub fn get_pending_transactions(&mut self, limit: usize) -> (r: Result<Vec<ContractTransaction>>)
        ensures
            ({
                let n = if limit < old(self).pending().len() { limit as int } else { old(self).pending().len() as int };
                &&& r matches Ok(taken) && taken@ == old(self).pending().subrange(0, n)
                &&& final(self).pending() == old(self).pending().subrange(n, old(self).pending().len() as int)
            }),
            final(self).receipt_log() == old(self).receipt_log(),
    {
        let len = self.pending_transactions.len();
        let n = if limit < len { limit } else { len };
        let mut taken = self.pending_transactions.split_off(n);
        std::mem::swap(&mut taken, &mut self.pending_transactions);
        Ok(taken)
    }

    /// The first receipt with the transaction hash, if any.
    pub fn get_receipt(&self, tx_hash: &Blake2bHash) -> (r: Result<Option<ContractReceipt>>)
        ensures
            match first_receipt(self.receipt_log(), tx_hash@) {
                Some(i) => r matches Ok(Some(rc)) && rc@ == self.receipt_log()[i],
                None => r matches Ok(None),
            },
    {
        let mut i: usize = 0;
        while i < self.receipts.len()
            invariant
                0 <= i <= self.receipts@.len(),
                forall|j: int| 0 <= j < i ==> self.receipt_log()[j].transaction_hash != tx_hash@,
            decreases self.receipts@.len() - i,
        {
            if hash_eq(&self.receipts[i].transaction_hash, tx_hash) {
                proof {
                    lemma_first_receipt(self.receipt_log(), tx_hash@, i as int);
                }
                return Ok(Some(self.receipts[i].copy_receipt()));
            }
            i = i + 1;
        }
        proof {
            lemma_first_receipt(self.receipt_log(), tx_hash@, i as int);
        }
        Ok(None)
    }

    /// Whether a call may go into a block: its gas must be between 1 and
    /// the most a transaction may ask for, and its contract must exist.
    pub fn validate_transaction(&self, transaction: &ContractTransaction) -> (r: Result<bool>)
        ensures
            (transaction.gas_limit == 0 || transaction.gas_limit > max_transaction_gas()) ==> r == Ok::<
                bool,
                BlockchainError,
            >(false),
            !(transaction.gas_limit == 0 || transaction.gas_limit > max_transaction_gas()) && self.machine().storage().reliable()
                ==> r == Ok::<bool, BlockchainError>(
                self.machine().storage().codes().contains_key(transaction.contract_address@),
            ),
    {
        if transaction.gas_limit == 0 || transaction.gas_limit > 10_000_000 {
            return Ok(false);
        }
        if !self.vm.has_contract(&transaction.contract_address)? {
            return Ok(false);
        }
        Ok(true)
    }
}

/// A chain that runs contracts.
pub trait ContractBlockchain {
    fn execute_contracts(&self, block: &crate::blockchain::block::Block) -> Result<Vec<ContractReceipt>>;

    fn deploy_contract(&self, deployment: ContractDeployment) -> Result<Blake2bHash>;

    fn call_contract(&self, transaction: ContractTransaction) -> Result<ContractReceipt>;
}

} // verus!
