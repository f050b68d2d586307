//! Settlement contracts as machine programs: the programs themselves, the
//! contracts that carry a program and its initial state, and the factory that
//! lays out a settlement's contracts.
use vstd::prelude::*;
use vstd::string::StringSliceAdditionalSpecFns;
use crate::collections::VecMap;
use crate::encoding::{decimal, le_value, push_decimal, push_str, u64_from_le};
use crate::primitives::error::Result;
use crate::primitives::primitives::{hash_data, sha256, zero_bytes, Blake2bHash};
use crate::smart_contracts::vm::{copy_code, program_view, Instruction, InstructionView};

verus! {

/// A digest whose 32 bytes all equal `b`: the storage slots the programs use.
pub open spec fn slot(b: u8) -> Seq<u8> {
    Seq::new(32, |i: int| b)
}

/// The CDR batch validator: checks a batch's privacy proof, then the two
/// networks' signatures, and returns 1 when all hold, else 0.
pub open spec fn cdr_validator_program() -> Seq<InstructionView> {
    seq![
        InstructionView::Log("CDR Batch Validator Started"@),
        InstructionView::Push(0),
        InstructionView::Load(zero_bytes()),
        InstructionView::Push(1),
        InstructionView::Load(zero_bytes()),
        InstructionView::Push(2),
        InstructionView::Load(zero_bytes()),
        InstructionView::VerifyProof,
        InstructionView::JumpIf(12),
        InstructionView::Log("Privacy proof verification failed"@),
        InstructionView::Push(0),
        InstructionView::Halt,
        InstructionView::Log("Privacy proof verified"@),
        InstructionView::Push(3),
        InstructionView::Load(zero_bytes()),
        InstructionView::Push(4),
        InstructionView::Load(zero_bytes()),
        InstructionView::CheckSignature,
        InstructionView::Swap,
        InstructionView::CheckSignature,
        InstructionView::Add,
        InstructionView::Push(2),
        InstructionView::Eq,
        InstructionView::JumpIf(27),
        InstructionView::Log("Network signature verification failed"@),
        InstructionView::Push(0),
        InstructionView::Halt,
        InstructionView::Log("CDR batch validated successfully"@),
        InstructionView::Push(1),
        InstructionView::Halt,
    ]
}

/// The settlement calculator: nets the creditor's and the debtor's totals
/// and stores the converted amount in slot 4.
pub open spec fn settlement_calculator_program() -> Seq<InstructionView> {
    seq![
        InstructionView::Log("Settlement Calculator Started"@),
        InstructionView::Load(slot(1)),
        InstructionView::Load(slot(2)),
        InstructionView::Load(slot(3)),
        InstructionView::Dup,
        InstructionView::Swap,
        InstructionView::Dup,
        InstructionView::Sub,
        InstructionView::Dup,
        InstructionView::Push(0),
        InstructionView::Lt,
        InstructionView::JumpIf(16),
        InstructionView::Swap,
        InstructionView::CalculateSettlement,
        InstructionView::Log("Creditor receives payment"@),
        InstructionView::Jump(22),
        InstructionView::Push(0),
        InstructionView::Swap,
        InstructionView::Sub,
        InstructionView::Swap,
        InstructionView::CalculateSettlement,
        InstructionView::Log("Debtor receives payment"@),
        InstructionView::Dup,
        InstructionView::Store(slot(4)),
        InstructionView::Log("Settlement calculation completed"@),
        InstructionView::Halt,
    ]
}

/// The settlement executor: checks the settlement proof and three
/// signatures, then records the execution time in slot 7.
pub open spec fn settlement_executor_program() -> Seq<InstructionView> {
    seq![
        InstructionView::Log("Settlement Executor Started"@),
        InstructionView::Push(0),
        InstructionView::Load(zero_bytes()),
        InstructionView::VerifyProof,
        InstructionView::JumpIf(8),
        InstructionView::Log("Settlement proof verification failed"@),
        InstructionView::Push(0),
        InstructionView::Halt,
        InstructionView::Log("Settlement proof verified"@),
        InstructionView::Push(1),
        InstructionView::Load(zero_bytes()),
        InstructionView::Push(2),
        InstructionView::Load(zero_bytes()),
        InstructionView::Push(3),
        InstructionView::Load(zero_bytes()),
        InstructionView::CheckSignature,
        InstructionView::Swap,
        InstructionView::CheckSignature,
        InstructionView::Add,
        InstructionView::Swap,
        InstructionView::CheckSignature,
        InstructionView::Add,
        InstructionView::Push(3),
        InstructionView::Eq,
        InstructionView::JumpIf(28),
        InstructionView::Log("Multi-party signature verification failed"@),
        InstructionView::Push(0),
        InstructionView::Halt,
        InstructionView::Log("Executing settlement transfer"@),
        InstructionView::Load(slot(5)),
        InstructionView::Load(slot(6)),
        InstructionView::Load(slot(4)),
        InstructionView::GetTimestamp,
        InstructionView::Store(slot(7)),
        InstructionView::Log("Settlement executed successfully"@),
        InstructionView::Push(1),
        InstructionView::Halt,
    ]
}

/// The netting program for three operators: takes the least of the three
/// obligations in slots 10 to 12 off each and stores the rest in slots 13
/// to 15.
pub open spec fn netting_program() -> Seq<InstructionView> {
    seq![
        InstructionView::Log("Multi-party Netting Started"@),
        InstructionView::Load(slot(10)),
        InstructionView::Load(slot(11)),
        InstructionView::Load(slot(12)),
        InstructionView::Dup,
        InstructionView::Swap,
        InstructionView::Dup,
        InstructionView::Lt,
        InstructionView::JumpIf(11),
        InstructionView::Dup,
        InstructionView::Jump(13),
        InstructionView::Pop,
        InstructionView::Dup,
        InstructionView::Swap,
        InstructionView::Dup,
        InstructionView::Lt,
        InstructionView::JumpIf(18),
        InstructionView::Jump(19),
        InstructionView::Pop,
        InstructionView::Dup,
        InstructionView::Log("Applying triangular netting"@),
        InstructionView::Swap,
        InstructionView::Sub,
        InstructionView::Store(slot(13)),
        InstructionView::Swap,
        InstructionView::Sub,
        InstructionView::Store(slot(14)),
        InstructionView::Sub,
        InstructionView::Store(slot(15)),
        InstructionView::Log("Netting calculation completed"@),
        InstructionView::Push(1),
        InstructionView::Halt,
    ]
}

/// Whether every jump of a program lands inside it.
pub open spec fn jumps_in_range(p: Seq<InstructionView>) -> bool {
    forall|i: int|
        0 <= i < p.len() ==> match #[trigger] p[i] {
            InstructionView::Jump(t) => t < p.len(),
            InstructionView::JumpIf(t) => t < p.len(),
            _ => true,
        }
}

/// Every jump of the settlement programs lands inside its program, on the
/// block it is meant for: the validator's and the executor's checks jump to
/// the block that reports the check passed, the calculator's sign test to the
/// debtor's case and then both cases to storing the amount, the netting
/// program's comparisons to the block that keeps the smaller amount and then
/// to applying the netting.
pub proof fn law_jumps_land_on_their_blocks()
    ensures
        jumps_in_range(cdr_validator_program()),
        jumps_in_range(settlement_calculator_program()),
        jumps_in_range(settlement_executor_program()),
        jumps_in_range(netting_program()),
        cdr_validator_program()[8] == InstructionView::JumpIf(12),
        cdr_validator_program()[12] == InstructionView::Log("Privacy proof verified"@),
        cdr_validator_program()[23] == InstructionView::JumpIf(27),
        cdr_validator_program()[27] == InstructionView::Log("CDR batch validated successfully"@),
        settlement_calculator_program()[11] == InstructionView::JumpIf(16),
        settlement_calculator_program()[15] == InstructionView::Jump(22),
        settlement_calculator_program()[21] == InstructionView::Log("Debtor receives payment"@),
        settlement_calculator_program()[22] == InstructionView::Dup,
        settlement_calculator_program()[23] == InstructionView::Store(slot(4)),
        settlement_executor_program()[4] == InstructionView::JumpIf(8),
        settlement_executor_program()[8] == InstructionView::Log("Settlement proof verified"@),
        settlement_executor_program()[24] == InstructionView::JumpIf(28),
        settlement_executor_program()[28] == InstructionView::Log("Executing settlement transfer"@),
        netting_program()[8] == InstructionView::JumpIf(11),
        netting_program()[10] == InstructionView::Jump(13),
        netting_program()[11] == InstructionView::Pop,
        netting_program()[16] == InstructionView::JumpIf(18),
        netting_program()[17] == InstructionView::Jump(19),
        netting_program()[18] == InstructionView::Pop,
        netting_program()[20] == InstructionView::Log("Applying triangular netting"@),
{
}

fn log(m: &str) -> (i: Instruction)
    ensures
        i@ == InstructionView::Log(m@),
{
    Instruction::Log(m.to_string())
}

fn slot_hash(b: u8) -> (h: Blake2bHash)
    ensures
        h@ == slot(b),
{
    let h = Blake2bHash::from_bytes([b; 32]);
    assert(h@ =~= slot(b));
    h
}

/// Compiles the settlement programs.
pub struct SettlementContractCompiler;

impl SettlementContractCompiler {
    /// The CDR batch validator program.
    pub fn compile_cdr_batch_validator() -> (code: Vec<Instruction>)
        ensures
            program_view(code@) == cdr_validator_program(),
    {
        let code = vec![
            log("CDR Batch Validator Started"),
            Instruction::Push(0),
            Instruction::Load(Blake2bHash::zero()),
            Instruction::Push(1),
            Instruction::Load(Blake2bHash::zero()),
            Instruction::Push(2),
            Instruction::Load(Blake2bHash::zero()),
            Instruction::VerifyProof,
            Instruction::JumpIf(12),
            log("Privacy proof verification failed"),
            Instruction::Push(0),
            Instruction::Halt,
            log("Privacy proof verified"),
            Instruction::Push(3),
            Instruction::Load(Blake2bHash::zero()),
            Instruction::Push(4),
            Instruction::Load(Blake2bHash::zero()),
            Instruction::CheckSignature,
            Instruction::Swap,
            Instruction::CheckSignature,
            Instruction::Add,
            Instruction::Push(2),
            Instruction::Eq,
            Instruction::JumpIf(27),
            log("Network signature verification failed"),
            Instruction::Push(0),
            Instruction::Halt,
            log("CDR batch validated successfully"),
            Instruction::Push(1),
            Instruction::Halt,
        ];
        assert(program_view(code@) =~= cdr_validator_program());
        code
    }

    /// The settlement calculator program.
    pub fn compile_settlement_calculator() -> (code: Vec<Instruction>)
        ensures
            program_view(code@) == settlement_calculator_program(),
    {
        let code = vec![
            log("Settlement Calculator Started"),
            Instruction::Load(slot_hash(1)),
            Instruction::Load(slot_hash(2)),
            Instruction::Load(slot_hash(3)),
            Instruction::Dup,
            Instruction::Swap,
            Instruction::Dup,
            Instruction::Sub,
            Instruction::Dup,
            Instruction::Push(0),
            Instruction::Lt,
            Instruction::JumpIf(16),
            Instruction::Swap,
            Instruction::CalculateSettlement,
            log("Creditor receives payment"),
            Instruction::Jump(22),
            Instruction::Push(0),
            Instruction::Swap,
            Instruction::Sub,
            Instruction::Swap,
            Instruction::CalculateSettlement,
            log("Debtor receives payment"),
            Instruction::Dup,
            Instruction::Store(slot_hash(4)),
            log("Settlement calculation completed"),
            Instruction::Halt,
        ];
        assert(program_view(code@) =~= settlement_calculator_program());
        code
    }

    /// The settlement executor program.
    pub fn compile_settlement_executor() -> (code: Vec<Instruction>)
        ensures
            program_view(code@) == settlement_executor_program(),
    {
        let code = vec![
            log("Settlement Executor Started"),
            Instruction::Push(0),
            Instruction::Load(Blake2bHash::zero()),
            Instruction::VerifyProof,
            Instruction::JumpIf(8),
            log("Settlement proof verification failed"),
            Instruction::Push(0),
            Instruction::Halt,
            log("Settlement proof verified"),
            Instruction::Push(1),
            Instruction::Load(Blake2bHash::zero()),
            Instruction::Push(2),
            Instruction::Load(Blake2bHash::zero()),
            Instruction::Push(3),
            Instruction::Load(Blake2bHash::zero()),
            Instruction::CheckSignature,
            Instruction::Swap,
            Instruction::CheckSignature,
            Instruction::Add,
            Instruction::Swap,
            Instruction::CheckSignature,
            Instruction::Add,
            Instruction::Push(3),
            Instruction::Eq,
            Instruction::JumpIf(28),
            log("Multi-party signature verification failed"),
            Instruction::Push(0),
            Instruction::Halt,
            log("Executing settlement transfer"),
            Instruction::Load(slot_hash(5)),
            Instruction::Load(slot_hash(6)),
            Instruction::Load(slot_hash(4)),
            Instruction::GetTimestamp,
            Instruction::Store(slot_hash(7)),
            log("Settlement executed successfully"),
            Instruction::Push(1),
            Instruction::Halt,
        ];
        assert(program_view(code@) =~= settlement_executor_program());
        code
    }

    /// The netting program.
    pub fn compile_netting_contract() -> (code: Vec<Instruction>)
        ensures
            program_view(code@) == netting_program(),
    {
        let code = vec![
            log("Multi-party Netting Started"),
            Instruction::Load(slot_hash(10)),
            Instruction::Load(slot_hash(11)),
            Instruction::Load(slot_hash(12)),
            Instruction::Dup,
            Instruction::Swap,
            Instruction::Dup,
            Instruction::Lt,
            Instruction::JumpIf(11),
            Instruction::Dup,
            Instruction::Jump(13),
            Instruction::Pop,
            Instruction::Dup,
            Instruction::Swap,
            Instruction::Dup,
            Instruction::Lt,
            Instruction::JumpIf(18),
            Instruction::Jump(19),
            Instruction::Pop,
            Instruction::Dup,
            log("Applying triangular netting"),
            Instruction::Swap,
            Instruction::Sub,
            Instruction::Store(slot_hash(13)),
            Instruction::Swap,
            Instruction::Sub,
            Instruction::Store(slot_hash(14)),
            Instruction::Sub,
            Instruction::Store(slot_hash(15)),
            log("Netting calculation completed"),
            Instruction::Push(1),
            Instruction::Halt,
        ];
        assert(program_view(code@) =~= netting_program());
        code
    }
}

/// Initial state of a settlement calculator.
pub open spec fn calculator_state(creditor_total: u64, debtor_total: u64, exchange_rate: u32) -> Map<Seq<u8>, u64> {
    Map::empty().insert(slot(1), creditor_total).insert(slot(2), debtor_total).insert(slot(3), exchange_rate as u64)
}

/// The word read from the first eight bytes of a digest.
pub open spec fn address_word(h: Seq<u8>) -> u64 {
    le_value(h.subrange(0, 8)) as u64
}

/// Initial state of a settlement executor.
pub open spec fn executor_state(creditor: Seq<u8>, debtor: Seq<u8>) -> Map<Seq<u8>, u64> {
    Map::empty().insert(slot(5), address_word(creditor)).insert(slot(6), address_word(debtor))
}

/// Initial state of a netting contract: the amounts of the first three
/// obligations, when there are three.
pub open spec fn netting_state(amounts: Seq<u64>) -> Map<Seq<u8>, u64> {
    if amounts.len() >= 3 {
        Map::empty().insert(slot(10), amounts[0]).insert(slot(11), amounts[1]).insert(slot(12), amounts[2])
    } else {
        Map::empty()
    }
}

/// A settlement contract ready for deployment: its address, program and
/// initial state.
pub struct ExecutableSettlementContract {
    pub contract_address: Blake2bHash,
    pub bytecode: Vec<Instruction>,
    pub state: VecMap<Blake2bHash, u64>,
}

impl ExecutableSettlementContract {
    /// A CDR batch validator at `contract_id`.
    pub fn new_cdr_validator(contract_id: Blake2bHash) -> (c: Self)
        ensures
            c.contract_address == contract_id,
            program_view(c.bytecode@) == cdr_validator_program(),
            c.state@ == Map::<Seq<u8>, u64>::empty(),
    {
        ExecutableSettlementContract {
            contract_address: contract_id,
            bytecode: SettlementContractCompiler::compile_cdr_batch_validator(),
            state: VecMap::new(),
        }
    }

    /// A settlement calculator at `contract_id` over the two totals.
    pub fn new_settlement_calculator(contract_id: Blake2bHash, creditor_total: u64, debtor_total: u64, exchange_rate: u32) -> (c: Self)
        ensures
            c.contract_address == contract_id,
            program_view(c.bytecode@) == settlement_calculator_program(),
            c.state@ == calculator_state(creditor_total, debtor_total, exchange_rate),
    {
        let mut state: VecMap<Blake2bHash, u64> = VecMap::new();
        state.insert(slot_hash(1), creditor_total);
        state.insert(slot_hash(2), debtor_total);
        state.insert(slot_hash(3), exchange_rate as u64);
        ExecutableSettlementContract {
            contract_address: contract_id,
            bytecode: SettlementContractCompiler::compile_settlement_calculator(),
            state,
        }
    }

    /// A settlement executor at `contract_id` between two parties.
    pub fn new_settlement_executor(contract_id: Blake2bHash, creditor_address: Blake2bHash, debtor_address: Blake2bHash) -> (c: Self)
        ensures
            c.contract_address == contract_id,
            program_view(c.bytecode@) == settlement_executor_program(),
            c.state@ == executor_state(creditor_address@, debtor_address@),
    {
        let mut state: VecMap<Blake2bHash, u64> = VecMap::new();
        let creditor_num = u64_from_le(creditor_address.as_bytes().as_slice());
        let debtor_num = u64_from_le(debtor_address.as_bytes().as_slice());
        state.insert(slot_hash(5), creditor_num);
        state.insert(slot_hash(6), debtor_num);
        ExecutableSettlementContract {
            contract_address: contract_id,
            bytecode: SettlementContractCompiler::compile_settlement_executor(),
            state,
        }
    }

    /// A netting contract at `contract_id` over the obligations
    /// (from, to, amount).
    pub fn new_netting_contract(contract_id: Blake2bHash, operator_obligations: &[(String, String, u64)]) -> (c: Self)
        ensures
            c.contract_address == contract_id,
            program_view(c.bytecode@) == netting_program(),
            c.state@ == netting_state(operator_obligations@.map_values(|o: (String, String, u64)| o.2)),
    {
        let mut state: VecMap<Blake2bHash, u64> = VecMap::new();
        if operator_obligations.len() >= 3 {
            state.insert(slot_hash(10), operator_obligations[0].2);
            state.insert(slot_hash(11), operator_obligations[1].2);
            state.insert(slot_hash(12), operator_obligations[2].2);
        }
        ExecutableSettlementContract {
            contract_address: contract_id,
            bytecode: SettlementContractCompiler::compile_netting_contract(),
            state,
        }
    }

    /// The address and a copy of the program.
    pub fn get_deployment_data(&self) -> (r: (Blake2bHash, Vec<Instruction>))
        ensures
            r.0 == self.contract_address,
            r.1@ == self.bytecode@,
    {
        (self.contract_address, copy_code(&self.bytecode))
    }

    /// The initial state.
    pub fn get_initial_state(&self) -> (r: &VecMap<Blake2bHash, u64>)
        ensures
            r == &self.state,
    {
        &self.state
    }
}

/// UTF-8 bytes of a text.
pub open spec fn utf8(s: Seq<char>) -> Seq<u8> {
    vstd::utf8::encode_utf8(s)
}

/// Bytes of `cdr_validator_{home}_{i}`.
pub open spec fn validator_name(home: Seq<char>, i: nat) -> Seq<u8> {
    utf8("cdr_validator_"@) + utf8(home) + utf8("_"@) + decimal(i)
}

/// Bytes of `{prefix}{home}_{visited}`.
pub open spec fn pair_name(prefix: Seq<char>, home: Seq<char>, visited: Seq<char>) -> Seq<u8> {
    utf8(prefix) + utf8(home) + utf8("_"@) + utf8(visited)
}

/// Bytes of the names joined with `_`.
pub open spec fn joined_names(names: Seq<Seq<char>>) -> Seq<u8>
    decreases names.len(),
{
    if names.len() == 0 {
        Seq::empty()
    } else if names.len() == 1 {
        utf8(names[0])
    } else {
        joined_names(names.drop_last()) + utf8("_"@) + utf8(names.last())
    }
}

/// Sum of the first components of the pairs.
pub open spec fn home_sum(t: Seq<(u64, u64)>) -> nat
    decreases t.len(),
{
    if t.len() == 0 {
        0
    } else {
        home_sum(t.drop_last()) + t.last().0 as nat
    }
}

/// Sum of the second components of the pairs.
pub open spec fn visited_sum(t: Seq<(u64, u64)>) -> nat
    decreases t.len(),
{
    if t.len() == 0 {
        0
    } else {
        visited_sum(t.drop_last()) + t.last().1 as nat
    }
}

proof fn lemma_sums_grow(t: Seq<(u64, u64)>, i: int)
    requires
        0 <= i <= t.len(),
    ensures
        home_sum(t.subrange(0, i)) <= home_sum(t),
        visited_sum(t.subrange(0, i)) <= visited_sum(t),
    decreases t.len() - i,
{
    if i < t.len() {
        lemma_sums_grow(t, i + 1);
        assert(t.subrange(0, i + 1).drop_last() =~= t.subrange(0, i));
    } else {
        assert(t.subrange(0, i) =~= t);
    }
}

/// Lays out settlement contracts.
pub struct SettlementContractFactory;

impl SettlementContractFactory {
    /// The contracts of a settlement between two networks: a validator per
    /// CDR batch, then the calculator over the summed totals, then the
    /// executor between the two networks.
    pub fn create_settlement_workflow(
        home_network: &str,
        visited_network: &str,
        cdr_batches: &[Blake2bHash],
        total_amounts: &[(u64, u64)],
        exchange_rate: u32,
    ) -> (r: Result<Vec<ExecutableSettlementContract>>)
        requires
            home_sum(total_amounts@) <= u64::MAX,
            visited_sum(total_amounts@) <= u64::MAX,
        ensures
            r matches Ok(contracts) && {
                let n = cdr_batches@.len() as int;
                &&& contracts@.len() == n + 2
                &&& forall|i: int| #![trigger contracts@[i]] 0 <= i < n ==> {
                    &&& contracts@[i].contract_address@ == sha256(validator_name(home_network@, i as nat))
                    &&& program_view(contracts@[i].bytecode@) == cdr_validator_program()
                    &&& contracts@[i].state@ == Map::<Seq<u8>, u64>::empty()
                }
                &&& contracts@[n].contract_address@ == sha256(pair_name("settlement_calc_"@, home_network@, visited_network@))
                &&& program_view(contracts@[n].bytecode@) == settlement_calculator_program()
                &&& contracts@[n].state@ == calculator_state(
                    home_sum(total_amounts@) as u64,
                    visited_sum(total_amounts@) as u64,
                    exchange_rate,
                )
                &&& contracts@[n + 1].contract_address@ == sha256(pair_name("settlement_exec_"@, home_network@, visited_network@))
                &&& program_view(contracts@[n + 1].bytecode@) == settlement_executor_program()
                &&& contracts@[n + 1].state@ == executor_state(sha256(utf8(home_network@)), sha256(utf8(visited_network@)))
            },
    {
        let mut contracts: Vec<ExecutableSettlementContract> = Vec::new();
        let mut i: usize = 0;
        while i < cdr_batches.len()
            invariant
                0 <= i <= cdr_batches@.len(),
                contracts@.len() == i,
                forall|j: int| #![trigger contracts@[j]] 0 <= j < i ==> {
                    &&& contracts@[j].contract_address@ == sha256(validator_name(home_network@, j as nat))
                    &&& program_view(contracts@[j].bytecode@) == cdr_validator_program()
                    &&& contracts@[j].state@ == Map::<Seq<u8>, u64>::empty()
                },
            decreases cdr_batches@.len() - i,
        {
            let mut name: Vec<u8> = Vec::new();
            push_str(&mut name, "cdr_validator_");
            push_str(&mut name, home_network);
            push_str(&mut name, "_");
            push_decimal(&mut name, i as u64);
            let validator_addr = hash_data(name.as_slice());
            contracts.push(ExecutableSettlementContract::new_cdr_validator(validator_addr));
            i = i + 1;
        }
        let mut name: Vec<u8> = Vec::new();
        push_str(&mut name, "settlement_calc_");
        push_str(&mut name, home_network);
        push_str(&mut name, "_");
        push_str(&mut name, visited_network);
        let calc_addr = hash_data(name.as_slice());
        let mut home_total: u64 = 0;
        let mut visited_total: u64 = 0;
        let mut k: usize = 0;
        while k < total_amounts.len()
            invariant
                0 <= k <= total_amounts@.len(),
                home_sum(total_amounts@) <= u64::MAX,
                visited_sum(total_amounts@) <= u64::MAX,
                home_total == home_sum(total_amounts@.subrange(0, k as int)),
                visited_total == visited_sum(total_amounts@.subrange(0, k as int)),
            decreases total_amounts@.len() - k,
        {
            proof {
                lemma_sums_grow(total_amounts@, k + 1);
                assert(total_amounts@.subrange(0, k + 1).drop_last() =~= total_amounts@.subrange(0, k as int));
            }
            home_total = home_total + total_amounts[k].0;
            visited_total = visited_total + total_amounts[k].1;
            k = k + 1;
        }
        proof {
            assert(total_amounts@.subrange(0, total_amounts@.len() as int) =~= total_amounts@);
        }
        contracts.push(ExecutableSettlementContract::new_settlement_calculator(calc_addr, home_total, visited_total, exchange_rate));
        let mut name: Vec<u8> = Vec::new();
        push_str(&mut name, "settlement_exec_");
        push_str(&mut name, home_network);
        push_str(&mut name, "_");
        push_str(&mut name, visited_network);
        let exec_addr = hash_data(name.as_slice());
        let creditor_addr = hash_data(home_network.as_bytes());
        let debtor_addr = hash_data(visited_network.as_bytes());
        contracts.push(ExecutableSettlementContract::new_settlement_executor(exec_addr, creditor_addr, debtor_addr));
        Ok(contracts)
    }

    /// A netting contract over the obligations, at the digest of
    /// `netting_` and the operators' names joined with `_`.
    pub fn create_netting_contract(operators: &[String], obligations: &[(String, String, u64)]) -> (r: Result<ExecutableSettlementContract>)
        ensures
            r matches Ok(c) && {
                &&& c.contract_address@ == sha256(utf8("netting_"@) + joined_names(operators@.map_values(|o: String| o@)))
                &&& program_view(c.bytecode@) == netting_program()
                &&& c.state@ == netting_state(obligations@.map_values(|o: (String, String, u64)| o.2))
            },
    {
        let mut name: Vec<u8> = Vec::new();
        push_str(&mut name, "netting_");
        let ghost start = name@;
        let mut i: usize = 0;
        while i < operators.len()
            invariant
                0 <= i <= operators@.len(),
                start == utf8("netting_"@),
                name@ == start + joined_names(operators@.subrange(0, i as int).map_values(|o: String| o@)),
            decreases operators@.len() - i,
        {
            if i > 0 {
                push_str(&mut name, "_");
            }
            push_str(&mut name, operators[i].as_str());
            proof {
                let prev = operators@.subrange(0, i as int).map_values(|o: String| o@);
                let next = operators@.subrange(0, i + 1).map_values(|o: String| o@);
                assert(next.drop_last() =~= prev);
                if i == 0 {
                    assert(prev =~= Seq::<Seq<char>>::empty());
                }
            }
            i = i + 1;
        }
        proof {
            assert(operators@.subrange(0, operators@.len() as int) =~= operators@);
        }
        let netting_addr = hash_data(name.as_slice());
        Ok(ExecutableSettlementContract::new_netting_contract(netting_addr, obligations))
    }
}

} // verus!
