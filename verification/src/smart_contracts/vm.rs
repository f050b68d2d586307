//! A stack machine that runs settlement contracts: its instruction set, gas
//! table, contract storage and the machine itself, with the meaning of every
//! instruction stated as a step of a mathematical model.
use vstd::prelude::*;
use crate::collections::VecMap;
use crate::crypto::PublicKey;
use crate::crypto::bls::outcome;
use crate::encoding::{decimal_text, law_le_round_trip, le_bytes, le_value, push_decimal_text, string_from_utf8, u64_from_le, u64_to_le};
use crate::primitives::error::{error_message, BlockchainError, Result};
use crate::primitives::primitives::{hash_data, hex_lower, sha256, Blake2bHash};
use crate::smart_contracts::crypto_verifier::{
    contract_sig_check, settlement_fields, word_field, zk_check, ContractCryptoVerifier, SettlementProofInputs,
};

verus! {

/// Contract bytecode instructions.
#[derive(Debug)]
pub enum Instruction {
    Push(u64),
    Pop,
    Dup,
    Swap,
    Add,
    Sub,
    Mul,
    Div,
    Mod,
    Eq,
    Lt,
    Gt,
    Jump(usize),
    JumpIf(usize),
    Call(Blake2bHash),
    Return,
    Load(Blake2bHash),
    Store(Blake2bHash),
    VerifyProof,
    CheckSignature,
    ValidateNetwork,
    CalculateSettlement,
    GetTimestamp,
    GetCaller,
    GetBalance,
    Transfer(Blake2bHash, u64),
    Log(String),
    Halt,
}

impl Clone for Instruction {
    fn clone(&self) -> (r: Self)
        ensures
            r == *self,
    {
        match self {
            Instruction::Push(v) => Instruction::Push(*v),
            Instruction::Pop => Instruction::Pop,
            Instruction::Dup => Instruction::Dup,
            Instruction::Swap => Instruction::Swap,
            Instruction::Add => Instruction::Add,
            Instruction::Sub => Instruction::Sub,
            Instruction::Mul => Instruction::Mul,
            Instruction::Div => Instruction::Div,
            Instruction::Mod => Instruction::Mod,
            Instruction::Eq => Instruction::Eq,
            Instruction::Lt => Instruction::Lt,
            Instruction::Gt => Instruction::Gt,
            Instruction::Jump(a) => Instruction::Jump(*a),
            Instruction::JumpIf(a) => Instruction::JumpIf(*a),
            Instruction::Call(h) => Instruction::Call(*h),
            Instruction::Return => Instruction::Return,
            Instruction::Load(h) => Instruction::Load(*h),
            Instruction::Store(h) => Instruction::Store(*h),
            Instruction::VerifyProof => Instruction::VerifyProof,
            Instruction::CheckSignature => Instruction::CheckSignature,
            Instruction::ValidateNetwork => Instruction::ValidateNetwork,
            Instruction::CalculateSettlement => Instruction::CalculateSettlement,
            Instruction::GetTimestamp => Instruction::GetTimestamp,
            Instruction::GetCaller => Instruction::GetCaller,
            Instruction::GetBalance => Instruction::GetBalance,
            Instruction::Transfer(h, v) => Instruction::Transfer(*h, *v),
            Instruction::Log(s) => Instruction::Log(s.clone()),
            Instruction::Halt => Instruction::Halt,
        }
    }
}

/// Plain model of an instruction: digests as bytes, log messages as text.
pub enum InstructionView {
    Push(u64),
    Pop,
    Dup,
    Swap,
    Add,
    Sub,
    Mul,
    Div,
    Mod,
    Eq,
    Lt,
    Gt,
    Jump(usize),
    JumpIf(usize),
    Call(Seq<u8>),
    Return,
    Load(Seq<u8>),
    Store(Seq<u8>),
    VerifyProof,
    CheckSignature,
    ValidateNetwork,
    CalculateSettlement,
    GetTimestamp,
    GetCaller,
    GetBalance,
    Transfer(Seq<u8>, u64),
    Log(Seq<char>),
    Halt,
}

impl View for Instruction {
    type V = InstructionView;

    open spec fn view(&self) -> InstructionView {
        match self {
            Instruction::Push(v) => InstructionView::Push(*v),
            Instruction::Pop => InstructionView::Pop,
            Instruction::Dup => InstructionView::Dup,
            Instruction::Swap => InstructionView::Swap,
            Instruction::Add => InstructionView::Add,
            Instruction::Sub => InstructionView::Sub,
            Instruction::Mul => InstructionView::Mul,
            Instruction::Div => InstructionView::Div,
            Instruction::Mod => InstructionView::Mod,
            Instruction::Eq => InstructionView::Eq,
            Instruction::Lt => InstructionView::Lt,
            Instruction::Gt => InstructionView::Gt,
            Instruction::Jump(a) => InstructionView::Jump(*a),
            Instruction::JumpIf(a) => InstructionView::JumpIf(*a),
            Instruction::Call(h) => InstructionView::Call(h@),
            Instruction::Return => InstructionView::Return,
            Instruction::Load(h) => InstructionView::Load(h@),
            Instruction::Store(h) => InstructionView::Store(h@),
            Instruction::VerifyProof => InstructionView::VerifyProof,
            Instruction::CheckSignature => InstructionView::CheckSignature,
            Instruction::ValidateNetwork => InstructionView::ValidateNetwork,
            Instruction::CalculateSettlement => InstructionView::CalculateSettlement,
            Instruction::GetTimestamp => InstructionView::GetTimestamp,
            Instruction::GetCaller => InstructionView::GetCaller,
            Instruction::GetBalance => InstructionView::GetBalance,
            Instruction::Transfer(h, v) => InstructionView::Transfer(h@, *v),
            Instruction::Log(m) => InstructionView::Log(m@),
            Instruction::Halt => InstructionView::Halt,
        }
    }
}

/// Views of a program's instructions.
pub open spec fn program_view(code: Seq<Instruction>) -> Seq<InstructionView> {
    code.map_values(|i: Instruction| i@)
}

/// Execution context of one contract call.
#[derive(Debug, Clone, Copy)]
pub struct ExecutionContext {
    pub contract_address: Blake2bHash,
    pub caller: Blake2bHash,
    pub timestamp: u64,
    pub gas_limit: u64,
    pub gas_used: u64,
    pub value: u64,
}

/// Gas cost of each kind of instruction.
pub struct GasCosts;

impl GasCosts {
    pub const PUSH: u64 = 1;
    pub const POP: u64 = 1;
    pub const DUP: u64 = 1;
    pub const SWAP: u64 = 1;
    pub const ADD: u64 = 3;
    pub const SUB: u64 = 3;
    pub const MUL: u64 = 5;
    pub const DIV: u64 = 5;
    pub const MOD: u64 = 5;
    pub const EQ: u64 = 3;
    pub const LT: u64 = 3;
    pub const GT: u64 = 3;
    pub const JUMP: u64 = 8;
    pub const JUMP_IF: u64 = 10;
    pub const CALL: u64 = 700;
    pub const RETURN: u64 = 1;
    pub const LOAD: u64 = 200;
    pub const STORE: u64 = 500;
    /// Checking a zero-knowledge proof is the most expensive operation.
    pub const VERIFY_PROOF: u64 = 50000;
    pub const CHECK_SIGNATURE: u64 = 3000;
    pub const VALIDATE_NETWORK: u64 = 100;
    /// A settlement with its two operands fits a budget of 1000 gas.
    pub const CALCULATE_SETTLEMENT: u64 = 500;
    pub const GET_TIMESTAMP: u64 = 20;
    pub const GET_CALLER: u64 = 20;
    pub const GET_BALANCE: u64 = 400;
    pub const TRANSFER: u64 = 9000;
    pub const LOG: u64 = 375;
    /// Halting is free.
    pub const HALT: u64 = 0;
}

/// Gas errors.
#[derive(Debug, Clone, Copy)]
pub enum GasError {
    OutOfGas,
    GasOverflow,
    InvalidGasLimit,
}

/// Gas charged for an instruction.
pub open spec fn gas_cost(i: Instruction) -> u64 {
    match i {
        Instruction::Push(_) => 1,
        Instruction::Pop => 1,
        Instruction::Dup => 1,
        Instruction::Swap => 1,
        Instruction::Add => 3,
        Instruction::Sub => 3,
        Instruction::Mul => 5,
        Instruction::Div => 5,
        Instruction::Mod => 5,
        Instruction::Eq => 3,
        Instruction::Lt => 3,
        Instruction::Gt => 3,
        Instruction::Jump(_) => 8,
        Instruction::JumpIf(_) => 10,
        Instruction::Call(_) => 700,
        Instruction::Return => 1,
        Instruction::Load(_) => 200,
        Instruction::Store(_) => 500,
        Instruction::VerifyProof => 50000,
        Instruction::CheckSignature => 3000,
        Instruction::ValidateNetwork => 100,
        Instruction::CalculateSettlement => 500,
        Instruction::GetTimestamp => 20,
        Instruction::GetCaller => 20,
        Instruction::GetBalance => 400,
        Instruction::Transfer(_, _) => 9000,
        Instruction::Log(_) => 375,
        Instruction::Halt => 0,
    }
}

/// `Debug` text of a digest: `Blake2bHash([b0, b1, ...])`.
pub open spec fn hash_debug(h: Seq<u8>) -> Seq<char> {
    "Blake2bHash(["@ + byte_list_text(h) + "])"@
}

/// Decimal texts of the bytes, separated by `, `.
pub open spec fn byte_list_text(b: Seq<u8>) -> Seq<char>
    decreases b.len(),
{
    if b.len() == 0 {
        Seq::empty()
    } else if b.len() == 1 {
        decimal_text(b[0] as nat)
    } else {
        byte_list_text(b.drop_last()) + ", "@ + decimal_text(b.last() as nat)
    }
}

/// `Debug` text of the instructions the machine does not carry out.
pub open spec fn unsupported_debug(i: Instruction) -> Seq<char> {
    match i {
        Instruction::Dup => "Dup"@,
        Instruction::Swap => "Swap"@,
        Instruction::Sub => "Sub"@,
        Instruction::Div => "Div"@,
        Instruction::Mod => "Mod"@,
        Instruction::Lt => "Lt"@,
        Instruction::Gt => "Gt"@,
        Instruction::Jump(a) => "Jump("@ + decimal_text(a as nat) + ")"@,
        Instruction::Call(h) => "Call("@ + hash_debug(h@) + ")"@,
        Instruction::Return => "Return"@,
        Instruction::ValidateNetwork => "ValidateNetwork"@,
        Instruction::GetBalance => "GetBalance"@,
        Instruction::Transfer(h, v) => "Transfer("@ + hash_debug(h@) + ", "@ + decimal_text(v as nat) + ")"@,
        _ => Seq::empty(),
    }
}

/// Whether the machine carries out an instruction.
pub open spec fn supported(i: Instruction) -> bool {
    match i {
        Instruction::Push(_) | Instruction::Pop | Instruction::Add | Instruction::Mul | Instruction::Eq
        | Instruction::JumpIf(_) | Instruction::Store(_) | Instruction::Load(_) | Instruction::VerifyProof
        | Instruction::CheckSignature | Instruction::CalculateSettlement | Instruction::GetTimestamp
        | Instruction::GetCaller | Instruction::Log(_) | Instruction::Halt => true,
        _ => false,
    }
}

fn push_hash_debug(out: &mut String, h: &Blake2bHash)
    ensures
        final(out)@ == old(out)@ + hash_debug(h@),
{
    let ghost start = out@;
    out.append("Blake2bHash([");
    let mut i: usize = 0;
    while i < 32
        invariant
            0 <= i <= 32,
            out@ == start + "Blake2bHash(["@ + byte_list_text(h@.subrange(0, i as int)),
        decreases 32 - i,
    {
        if i > 0 {
            out.append(", ");
        }
        push_decimal_text(out, h.0[i] as u64);
        proof {
            let s = h@.subrange(0, i + 1);
            assert(s.drop_last() =~= h@.subrange(0, i as int));
            if i == 0 {
                assert(h@.subrange(0, 0) =~= Seq::<u8>::empty());
                assert(byte_list_text(Seq::<u8>::empty()) =~= Seq::<char>::empty());
            }
        }
        i = i + 1;
    }
    out.append("])");
    assert(h@.subrange(0, 32) =~= h@);
}

/// Text of the error an unsupported instruction raises.
fn unsupported_message(i: &Instruction) -> (s: String)
    requires
        !supported(*i),
    ensures
        s@ == "Unsupported instruction: "@ + unsupported_debug(*i),
{
    let mut s = String::new();
    s.append("Unsupported instruction: ");
    match i {
        Instruction::Dup => s.append("Dup"),
        Instruction::Swap => s.append("Swap"),
        Instruction::Sub => s.append("Sub"),
        Instruction::Div => s.append("Div"),
        Instruction::Mod => s.append("Mod"),
        Instruction::Lt => s.append("Lt"),
        Instruction::Gt => s.append("Gt"),
        Instruction::Jump(a) => {
            s.append("Jump(");
            push_decimal_text(&mut s, *a as u64);
            s.append(")");
        },
        Instruction::Call(h) => {
            s.append("Call(");
            push_hash_debug(&mut s, h);
            s.append(")");
        },
        Instruction::Return => s.append("Return"),
        Instruction::ValidateNetwork => s.append("ValidateNetwork"),
        Instruction::GetBalance => s.append("GetBalance"),
        Instruction::Transfer(h, v) => {
            s.append("Transfer(");
            push_hash_debug(&mut s, h);
            s.append(", ");
            push_decimal_text(&mut s, *v);
            s.append(")");
        },
        _ => {},
    }
    s
}

/// View of an optional byte vector.
pub open spec fn opt_bytes(o: Option<Vec<u8>>) -> Option<Seq<u8>> {
    match o {
        Some(v) => Some(v@),
        None => None,
    }
}

/// View of optional code.
pub open spec fn opt_code(o: Option<Vec<Instruction>>) -> Option<Seq<Instruction>> {
    match o {
        Some(v) => Some(v@),
        None => None,
    }
}

/// Storage of contracts' state and code. An implementation may refuse an
/// operation with an error; one that is `reliable` never does.
pub trait ContractStorage: Send + Sync {
    /// Stored values, by (contract, key).
    spec fn stored(&self) -> Map<(Seq<u8>, Seq<u8>), Seq<u8>>;

    /// Deployed code, by contract.
    spec fn codes(&self) -> Map<Seq<u8>, Seq<Instruction>>;

    /// Whether every operation succeeds.
    spec fn reliable(&self) -> bool;

    fn get(&self, contract: &Blake2bHash, key: &Blake2bHash) -> (r: Result<Option<Vec<u8>>>)
        ensures
            r matches Ok(o) ==> opt_bytes(o) == self.stored().get((contract@, key@)),
            self.reliable() ==> r is Ok,
    ;

    fn set(&mut self, contract: &Blake2bHash, key: &Blake2bHash, value: Vec<u8>) -> (r: Result<()>)
        ensures
            r is Ok ==> final(self).stored() == old(self).stored().insert((contract@, key@), value@),
            r is Err ==> final(self).stored() == old(self).stored(),
            final(self).codes() == old(self).codes(),
            final(self).reliable() == old(self).reliable(),
            old(self).reliable() ==> r is Ok,
    ;

    fn get_code(&self, contract: &Blake2bHash) -> (r: Result<Option<Vec<Instruction>>>)
        ensures
            r matches Ok(o) ==> opt_code(o) == self.codes().get(contract@),
            self.reliable() ==> r is Ok,
    ;

    fn set_code(&mut self, contract: &Blake2bHash, code: Vec<Instruction>) -> (r: Result<()>)
        ensures
            r is Ok ==> final(self).codes() == old(self).codes().insert(contract@, code@),
            r is Err ==> final(self).codes() == old(self).codes(),
            final(self).stored() == old(self).stored(),
            final(self).reliable() == old(self).reliable(),
            old(self).reliable() ==> r is Ok,
    ;
}

/// Contract storage held in memory.
pub struct MemoryStorage {
    state: VecMap<(Blake2bHash, Blake2bHash), Vec<u8>>,
    code: VecMap<Blake2bHash, Vec<Instruction>>,
}

impl MemoryStorage {
    pub fn new() -> (m: Self)
        ensures
            m.stored() == Map::<(Seq<u8>, Seq<u8>), Seq<u8>>::empty(),
            m.codes() == Map::<Seq<u8>, Seq<Instruction>>::empty(),
            m.reliable(),
    {
        let m = MemoryStorage { state: VecMap::new(), code: VecMap::new() };
        assert(m.stored() =~= Map::<(Seq<u8>, Seq<u8>), Seq<u8>>::empty());
        assert(m.codes() =~= Map::<Seq<u8>, Seq<Instruction>>::empty());
        m
    }
}

pub(crate) fn copy_bytes(v: &Vec<u8>) -> (r: Vec<u8>)
    ensures
        r@ == v@,
{
    let r = v.clone();
    assert forall|i: int| 0 <= i < r@.len() implies r@[i] == v@[i] by {
        assert(cloned::<u8>(v[i], r[i]));
    }
    assert(r@ =~= v@);
    r
}

pub(crate) fn copy_code(v: &Vec<Instruction>) -> (r: Vec<Instruction>)
    ensures
        r@ == v@,
{
    let mut r: Vec<Instruction> = Vec::new();
    let mut i: usize = 0;
    while i < v.len()
        invariant
            0 <= i <= v@.len(),
            r@ == v@.subrange(0, i as int),
        decreases v@.len() - i,
    {
        r.push(v[i].clone());
        assert(r@ =~= v@.subrange(0, i + 1));
        i = i + 1;
    }
    assert(v@.subrange(0, v@.len() as int) =~= v@);
    r
}

impl ContractStorage for MemoryStorage {
    closed spec fn stored(&self) -> Map<(Seq<u8>, Seq<u8>), Seq<u8>> {
        self.state@.map_values(|v: Vec<u8>| v@)
    }

    closed spec fn codes(&self) -> Map<Seq<u8>, Seq<Instruction>> {
        self.code@.map_values(|c: Vec<Instruction>| c@)
    }

    open spec fn reliable(&self) -> bool {
        true
    }

    fn get(&self, contract: &Blake2bHash, key: &Blake2bHash) -> (r: Result<Option<Vec<u8>>>) {
        match self.state.get(&(*contract, *key)) {
            Some(v) => Ok(Some(copy_bytes(v))),
            None => Ok(None),
        }
    }

    fn set(&mut self, contract: &Blake2bHash, key: &Blake2bHash, value: Vec<u8>) -> (r: Result<()>) {
        self.state.insert((*contract, *key), value);
        assert(self.stored() =~= old(self).stored().insert((contract@, key@), value@));
        Ok(())
    }

    fn get_code(&self, contract: &Blake2bHash) -> (r: Result<Option<Vec<Instruction>>>) {
        match self.code.get(contract) {
            Some(c) => Ok(Some(copy_code(c))),
            None => Ok(None),
        }
    }

    fn set_code(&mut self, contract: &Blake2bHash, code: Vec<Instruction>) -> (r: Result<()>) {
        self.code.insert(*contract, code);
        assert(self.codes() =~= old(self).codes().insert(contract@, code@));
        Ok(())
    }
}

/// Most values the stack holds.
pub open spec fn stack_limit() -> nat {
    1024
}

/// State of the machine during a run, as the model sees it.
#[verifier::ext_equal]
pub struct VmState {
    pub stack: Seq<u64>,
    pub pc: int,
    pub gas_used: u64,
    pub logs: Seq<Seq<char>>,
    pub stored: Map<(Seq<u8>, Seq<u8>), Seq<u8>>,
}

/// What stays fixed during a run: the context of the call and the keys of
/// the machine's checks.
pub struct VmEnv {
    pub contract: Seq<u8>,
    pub caller: Seq<u8>,
    pub timestamp: u64,
    pub gas_limit: u64,
    pub settlement_key: Option<Seq<u8>>,
    pub operators: Map<Seq<char>, PublicKey>,
}

/// Outcome of one instruction.
pub enum Step {
    /// Go on in this state.
    Next(VmState),
    /// Stop in this state.
    Halted(VmState),
    /// Stop with an error raised in this state.
    Failed(VmState, Seq<char>),
}

pub open spec fn fail(s: VmState, m: Seq<char>) -> Step {
    Step::Failed(s, m)
}

pub open spec fn underflow(s: VmState) -> Step {
    Step::Failed(s, "Stack underflow"@)
}

/// Go on to the next instruction with this stack.
pub open spec fn advance(s: VmState, st: Seq<u64>) -> Step {
    Step::Next(VmState { stack: st, pc: s.pc + 1, ..s })
}

/// Push `v` onto `st` and go on; a full stack overflows.
pub open spec fn push_onto(s: VmState, st: Seq<u64>, v: u64) -> Step {
    if st.len() >= stack_limit() {
        Step::Failed(s, "Stack overflow"@)
    } else {
        advance(s, st.push(v))
    }
}

/// The value `k` places below the top.
pub open spec fn top(st: Seq<u64>, k: int) -> u64 {
    st[st.len() - 1 - k]
}

/// The stack without its top `k` values.
pub open spec fn below(st: Seq<u64>, k: int) -> Seq<u64> {
    st.subrange(0, st.len() - k)
}

/// Pops a length, then that many values, each taken as a byte, top first:
/// the bytes and the rest of the stack, or `None` on underflow.
pub open spec fn take_bytes(st: Seq<u64>) -> Option<(Seq<u8>, Seq<u64>)> {
    if st.len() == 0 {
        None
    } else {
        let n = (st.last() as usize) as int;
        let a = st.drop_last();
        if a.len() < n {
            None
        } else {
            Some((Seq::new(n as nat, |j: int| a[a.len() - 1 - j] as u8), below(a, n)))
        }
    }
}

/// Digest of the 30-day period a time falls in.
pub open spec fn period_hash(timestamp: u64) -> Seq<u8> {
    sha256(le_bytes((timestamp / 2592000) as nat))
}

/// The word a stored value is read as: its little-endian value when it has
/// eight bytes, else 0.
pub open spec fn load_word(o: Option<Seq<u8>>) -> u64 {
    match o {
        Some(b) => if b.len() == 8 {
            le_value(b) as u64
        } else {
            0
        },
        None => 0,
    }
}

/// Line logged for a message.
pub open spec fn log_line(contract: Seq<u8>, m: Seq<char>) -> Seq<char> {
    hex_lower(contract) + ": "@ + m
}

/// Effect of an instruction once its gas is paid.
pub open spec fn execute_op(env: VmEnv, s: VmState, i: Instruction) -> Step {
    let st = s.stack;
    match i {
        Instruction::Push(v) => push_onto(s, st, v),
        Instruction::Pop => if st.len() < 1 {
            underflow(s)
        } else {
            advance(s, st.drop_last())
        },
        Instruction::Add => if st.len() < 2 {
            underflow(s)
        } else {
            push_onto(s, below(st, 2), top(st, 1).wrapping_add(top(st, 0)))
        },
        Instruction::Mul => if st.len() < 2 {
            underflow(s)
        } else {
            push_onto(s, below(st, 2), top(st, 1).wrapping_mul(top(st, 0)))
        },
        Instruction::Eq => if st.len() < 2 {
            underflow(s)
        } else {
            push_onto(s, below(st, 2), if top(st, 1) == top(st, 0) { 1 } else { 0 })
        },
        Instruction::JumpIf(a) => if st.len() < 1 {
            underflow(s)
        } else if st.last() != 0 {
            Step::Next(VmState { stack: st.drop_last(), pc: a as int, ..s })
        } else {
            advance(s, st.drop_last())
        },
        Instruction::Store(k) => if st.len() < 1 {
            underflow(s)
        } else {
            Step::Next(
                VmState {
                    stack: st.drop_last(),
                    pc: s.pc + 1,
                    stored: s.stored.insert((env.contract, k@), le_bytes(st.last() as nat)),
                    ..s
                },
            )
        },
        Instruction::Load(k) => push_onto(s, st, load_word(s.stored.get((env.contract, k@)))),
        Instruction::VerifyProof => match take_bytes(st) {
            None => underflow(s),
            Some((proof, a)) => if a.len() < 3 {
                underflow(s)
            } else {
                let fields = seq![
                    word_field(top(a, 2)),
                    word_field((top(a, 1) as u32) as u64),
                    word_field(top(a, 0)),
                    period_hash(env.timestamp),
                    env.contract,
                ];
                match zk_check(env.settlement_key, proof, fields) {
                    Err(m) => fail(s, m),
                    Ok(ok) => push_onto(s, below(a, 3), if ok { 1 } else { 0 }),
                }
            },
        },
        Instruction::CheckSignature => match take_bytes(st) {
            None => underflow(s),
            Some((sig, a)) => match take_bytes(a) {
                None => underflow(s),
                Some((msg, b)) => match take_bytes(b) {
                    None => underflow(s),
                    Some((net, c)) => if !vstd::utf8::valid_utf8(net) {
                        fail(s, "Invalid operation: "@ + "Invalid network name"@)
                    } else {
                        match contract_sig_check(env.operators, vstd::utf8::decode_utf8(net), msg, sig) {
                            Err(m) => fail(s, m),
                            Ok(ok) => push_onto(s, c, if ok { 1 } else { 0 }),
                        }
                    },
                },
            },
        },
        Instruction::CalculateSettlement => if st.len() < 2 {
            underflow(s)
        } else {
            push_onto(s, below(st, 2), top(st, 1).wrapping_mul(top(st, 0)) / 100)
        },
        Instruction::GetTimestamp => push_onto(s, st, env.timestamp),
        Instruction::GetCaller => push_onto(s, st, le_value(env.caller.subrange(0, 8)) as u64),
        Instruction::Log(m) => Step::Next(
            VmState { pc: s.pc + 1, logs: s.logs.push(log_line(env.contract, m@)), ..s },
        ),
        Instruction::Halt => Step::Halted(s),
        _ => fail(s, "Invalid operation: "@ + ("Unsupported instruction: "@ + unsupported_debug(i))),
    }
}

/// One instruction: its gas is paid first, and an instruction whose gas
/// would pass the limit fails with nothing else done.
pub open spec fn step(env: VmEnv, s: VmState, i: Instruction) -> Step {
    let g = s.gas_used.saturating_add(gas_cost(i));
    if g > env.gas_limit {
        fail(s, "Out of gas"@)
    } else {
        execute_op(env, VmState { gas_used: g, ..s }, i)
    }
}

/// A run from a state: instructions are carried out until the program
/// counter leaves the code, an instruction halts or fails, or the gas used
/// reaches the limit. The final state and the error, if any.
pub open spec fn run(code: Seq<Instruction>, env: VmEnv, s: VmState) -> (VmState, Option<Seq<char>>)
    decreases env.gas_limit - s.gas_used,
    via run_decreases
{
    if !(0 <= s.pc < code.len()) {
        (s, None)
    } else if s.gas_used >= env.gas_limit {
        (s, Some("Out of gas"@))
    } else {
        match step(env, s, code[s.pc]) {
            Step::Next(t) => run(code, env, t),
            Step::Halted(t) => (t, None),
            Step::Failed(t, m) => (t, Some(m)),
        }
    }
}

/// Every instruction that lets the run go on pays gas, without passing the
/// limit.
pub proof fn lemma_step_pays(env: VmEnv, s: VmState, i: Instruction)
    requires
        s.gas_used < env.gas_limit,
    ensures
        step(env, s, i) matches Step::Next(t) ==> s.gas_used < t.gas_used <= env.gas_limit,
{
}

#[via_fn]
proof fn run_decreases(code: Seq<Instruction>, env: VmEnv, s: VmState) {
    if 0 <= s.pc < code.len() && s.gas_used < env.gas_limit {
        lemma_step_pays(env, s, code[s.pc]);
    }
}

/// Outcome of a contract execution.
#[derive(Debug)]
pub struct ExecutionResult {
    pub success: bool,
    pub return_value: Option<u64>,
    pub gas_used: u64,
    pub logs: Vec<String>,
    pub error: Option<String>,
}

/// Texts of log lines.
pub open spec fn log_texts(logs: Seq<String>) -> Seq<Seq<char>> {
    logs.map_values(|l: String| l@)
}

/// Whether an execution result reports the end of a run: success when no
/// error was raised, the top of the final stack as the return value, the gas
/// used, the logs and the error's text.
pub open spec fn reports(r: ExecutionResult, fin: VmState, err: Option<Seq<char>>) -> bool {
    &&& r.success == (err is None)
    &&& r.return_value == (if err is None && fin.stack.len() > 0 { Some(fin.stack.last()) } else { None::<u64> })
    &&& r.gas_used == fin.gas_used
    &&& log_texts(r.logs@) == fin.logs
    &&& match r.error {
        Some(e) => err == Some(e@),
        None => err is None,
    }
}

/// The fixed part of a run of the call `ctx` under the given keys.
pub open spec fn vm_env(ctx: ExecutionContext, settlement_key: Option<Seq<u8>>, operators: Map<Seq<char>, PublicKey>) -> VmEnv {
    VmEnv {
        contract: ctx.contract_address@,
        caller: ctx.caller@,
        timestamp: ctx.timestamp,
        gas_limit: ctx.gas_limit,
        settlement_key,
        operators,
    }
}

/// State at the start of a run: the input bytes on the stack, first byte
/// deepest.
pub open spec fn start_state(input: Seq<u8>, gas_used: u64, stored: Map<(Seq<u8>, Seq<u8>), Seq<u8>>) -> VmState {
    VmState {
        stack: input.map_values(|b: u8| b as u64),
        pc: 0,
        gas_used,
        logs: Seq::empty(),
        stored,
    }
}

/// How an instruction leaves the program counter.
enum Flow {
    Next,
    Jump(usize),
    Stop,
}

/// Whether an instruction's result and the machine's state after it agree
/// with a step of the model; `after` has the program counter of before.
spec fn agrees(o: Step, r: Result<Flow>, after: VmState) -> bool {
    match o {
        Step::Next(t) => match r {
            Ok(Flow::Next) => t =~= VmState { pc: after.pc + 1, ..after },
            Ok(Flow::Jump(a)) => t =~= VmState { pc: a as int, ..after },
            _ => false,
        },
        Step::Halted(t) => r matches Ok(Flow::Stop) && t =~= after,
        Step::Failed(t, m) => r matches Err(e) && error_message(e) == m && t.gas_used == after.gas_used && t.logs
            =~= after.logs && t.stored =~= after.stored,
    }
}

/// The contract machine.
pub struct ContractVM<S: ContractStorage> {
    storage: S,
    stack: Vec<u64>,
    call_stack: Vec<usize>,
    program_counter: usize,
    crypto_verifier: ContractCryptoVerifier,
}

impl<S: ContractStorage> ContractVM<S> {
    /// The machine's storage.
    pub closed spec fn storage(&self) -> S {
        self.storage
    }

    /// Key of the settlement circuit the machine checks proofs with.
    pub closed spec fn settlement_key(&self) -> Option<Seq<u8>> {
        self.crypto_verifier.zk_verifier.settlement_key()
    }

    /// Operators whose signatures the machine checks.
    pub closed spec fn operators(&self) -> Map<Seq<char>, PublicKey> {
        self.crypto_verifier.bls_verifier.operators()
    }

    closed spec fn state_of(&self, ctx: ExecutionContext, logs: Seq<String>) -> VmState {
        VmState {
            stack: self.stack@,
            pc: self.program_counter as int,
            gas_used: ctx.gas_used,
            logs: log_texts(logs),
            stored: self.storage.stored(),
        }
    }

    closed spec fn env_of(&self, ctx: ExecutionContext) -> VmEnv {
        vm_env(ctx, self.settlement_key(), self.operators())
    }

    /// A machine over `storage`, with no keys loaded.
    pub fn new(storage: S) -> (vm: Self)
        ensures
            vm.storage() == storage,
            vm.settlement_key() is None,
            vm.operators() == Map::<Seq<char>, PublicKey>::empty(),
    {
        ContractVM {
            storage,
            stack: Vec::new(),
            call_stack: Vec::new(),
            program_counter: 0,
            crypto_verifier: ContractCryptoVerifier::new(),
        }
    }

    /// A machine over `storage` that checks with the given keys.
    pub fn new_with_crypto(storage: S, crypto_verifier: ContractCryptoVerifier) -> (vm: Self)
        ensures
            vm.storage() == storage,
            vm.settlement_key() == crypto_verifier.zk_verifier.settlement_key(),
            vm.operators() == crypto_verifier.bls_verifier.operators(),
    {
        ContractVM { storage, stack: Vec::new(), call_stack: Vec::new(), program_counter: 0, crypto_verifier }
    }

    /// Pays `gas_cost` out of the context's gas; refused, with nothing paid,
    /// when the total would pass the limit.
    fn consume_gas(&self, context: &mut ExecutionContext, gas_cost: u64) -> (r: Result<()>)
        ensures
            old(context).gas_used.saturating_add(gas_cost) > old(context).gas_limit ==> (r matches Err(
                BlockchainError::OutOfGas,
            ) && *final(context) == *old(context)),
            old(context).gas_used.saturating_add(gas_cost) <= old(context).gas_limit ==> (r is Ok && *final(context)
                == (ExecutionContext { gas_used: old(context).gas_used.saturating_add(gas_cost), ..*old(context) })),
    {
        if context.gas_used.saturating_add(gas_cost) > context.gas_limit {
            return Err(BlockchainError::OutOfGas);
        }
        context.gas_used = context.gas_used.saturating_add(gas_cost);
        Ok(())
    }

    /// Gas an instruction costs.
    fn get_instruction_gas_cost(&self, instruction: &Instruction) -> (c: u64)
        ensures
            c == gas_cost(*instruction),
    {
        match instruction {
            Instruction::Push(_) => GasCosts::PUSH,
            Instruction::Pop => GasCosts::POP,
            Instruction::Dup => GasCosts::DUP,
            Instruction::Swap => GasCosts::SWAP,
            Instruction::Add => GasCosts::ADD,
            Instruction::Sub => GasCosts::SUB,
            Instruction::Mul => GasCosts::MUL,
            Instruction::Div => GasCosts::DIV,
            Instruction::Mod => GasCosts::MOD,
            Instruction::Eq => GasCosts::EQ,
            Instruction::Lt => GasCosts::LT,
            Instruction::Gt => GasCosts::GT,
            Instruction::Jump(_) => GasCosts::JUMP,
            Instruction::JumpIf(_) => GasCosts::JUMP_IF,
            Instruction::Call(_) => GasCosts::CALL,
            Instruction::Return => GasCosts::RETURN,
            Instruction::Load(_) => GasCosts::LOAD,
            Instruction::Store(_) => GasCosts::STORE,
            Instruction::VerifyProof => GasCosts::VERIFY_PROOF,
            Instruction::CheckSignature => GasCosts::CHECK_SIGNATURE,
            Instruction::ValidateNetwork => GasCosts::VALIDATE_NETWORK,
            Instruction::CalculateSettlement => GasCosts::CALCULATE_SETTLEMENT,
            Instruction::GetTimestamp => GasCosts::GET_TIMESTAMP,
            Instruction::GetCaller => GasCosts::GET_CALLER,
            Instruction::GetBalance => GasCosts::GET_BALANCE,
            Instruction::Transfer(_, _) => GasCosts::TRANSFER,
            Instruction::Log(_) => GasCosts::LOG,
            Instruction::Halt => GasCosts::HALT,
        }
    }

    /// Deploys code at an address.
    pub fn deploy_contract(&mut self, address: Blake2bHash, bytecode: Vec<Instruction>) -> (r: Result<()>)
        ensures
            r is Ok ==> final(self).storage().codes() == old(self).storage().codes().insert(address@, bytecode@),
            r is Err ==> final(self).storage().codes() == old(self).storage().codes(),
            final(self).storage().stored() == old(self).storage().stored(),
            final(self).storage().reliable() == old(self).storage().reliable(),
            old(self).storage().reliable() ==> r is Ok,
            final(self).settlement_key() == old(self).settlement_key(),
            final(self).operators() == old(self).operators(),
    {
        self.storage.set_code(&address, bytecode)?;
        Ok(())
    }

    /// Everything but the stack is as in `other`.
    closed spec fn same_but_stack(&self, other: &Self) -> bool {
        &&& self.storage == other.storage
        &&& self.crypto_verifier == other.crypto_verifier
        &&& self.program_counter == other.program_counter
    }

    fn push(&mut self, value: u64) -> (r: Result<()>)
        ensures
            final(self).same_but_stack(old(self)),
            old(self).stack@.len() >= stack_limit() ==> (r matches Err(BlockchainError::StackOverflow)
                && final(self).stack@ == old(self).stack@),
            old(self).stack@.len() < stack_limit() ==> (r is Ok && final(self).stack@ == old(self).stack@.push(value)),
    {
        if self.stack.len() >= 1024 {
            return Err(BlockchainError::StackOverflow);
        }
        self.stack.push(value);
        Ok(())
    }

    fn pop(&mut self) -> (r: Result<u64>)
        ensures
            final(self).same_but_stack(old(self)),
            old(self).stack@.len() == 0 ==> (r matches Err(BlockchainError::StackUnderflow)
                && final(self).stack@ == old(self).stack@),
            old(self).stack@.len() > 0 ==> (r == Ok::<u64, BlockchainError>(old(self).stack@.last())
                && final(self).stack@ == old(self).stack@.drop_last()),
    {
        match self.stack.pop() {
            Some(v) => Ok(v),
            None => Err(BlockchainError::StackUnderflow),
        }
    }

    /// Pops a length, then that many values as bytes.
    fn pop_bytes(&mut self) -> (r: Result<Vec<u8>>)
        ensures
            final(self).same_but_stack(old(self)),
            final(self).stack@.len() <= old(self).stack@.len(),
            match take_bytes(old(self).stack@) {
                None => r matches Err(BlockchainError::StackUnderflow),
                Some((b, rest)) => r matches Ok(v) && v@ == b && final(self).stack@ == rest,
            },
    {
        let ghost st = self.stack@;
        let n_word = self.pop()?;
        let n = #[verifier::truncate] (n_word as usize);
        let ghost a = self.stack@;
        let mut data: Vec<u8> = Vec::new();
        let mut i: usize = 0;
        while i < n
            invariant
                self.same_but_stack(old(self)),
                st == old(self).stack@,
                st.len() > 0,
                a == st.drop_last(),
                n == (st.last() as usize),
                0 <= i <= n,
                i <= a.len(),
                self.stack@ == a.subrange(0, a.len() - i),
                data@ == Seq::new(i as nat, |j: int| a[a.len() - 1 - j] as u8),
            decreases n - i,
        {
            let v = self.pop()?;
            data.push(#[verifier::truncate] (v as u8));
            proof {
                assert(data@ =~= Seq::new((i + 1) as nat, |j: int| a[a.len() - 1 - j] as u8));
                assert(self.stack@ =~= a.subrange(0, a.len() - (i + 1)));
            }
            i = i + 1;
        }
        Ok(data)
    }

    /// What an instruction may not change: the keys, the program counter
    /// and the code, and whether storage is reliable; the stack stays in
    /// bounds.
    closed spec fn kept(&self, other: &Self) -> bool {
        &&& self.crypto_verifier == other.crypto_verifier
        &&& self.program_counter == other.program_counter
        &&& self.storage.codes() == other.storage.codes()
        &&& self.storage.reliable() == other.storage.reliable()
        &&& self.stack@.len() <= stack_limit()
    }

    /// Digest of the 30-day period of a time.
    fn derive_period_hash(&self, timestamp: u64) -> (h: Blake2bHash)
        ensures
            h@ == period_hash(timestamp),
    {
        let period = timestamp / (30 * 24 * 60 * 60);
        let bytes = u64_to_le(period);
        hash_data(bytes.as_slice())
    }

    /// The contract's address stands for the pair of networks it settles.
    fn derive_network_hash(&self, contract_address: &Blake2bHash) -> (h: Blake2bHash)
        ensures
            h == *contract_address,
    {
        *contract_address
    }

    /// Checks a settlement proof for the call `ctx`.
    fn verify_zkp_proof(
        &self,
        proof_data: &[u8],
        total_charges: u64,
        exchange_rate: u32,
        settlement_amount: u64,
        ctx: &ExecutionContext,
    ) -> (r: Result<bool>)
        ensures
            outcome(r) == zk_check(
                self.settlement_key(),
                proof_data@,
                seq![
                    word_field(total_charges),
                    word_field(exchange_rate as u64),
                    word_field(settlement_amount),
                    period_hash(ctx.timestamp),
                    ctx.contract_address@,
                ],
            ),
    {
        let inputs = SettlementProofInputs {
            total_charges,
            exchange_rate,
            settlement_amount,
            period_hash: self.derive_period_hash(ctx.timestamp),
            network_pair_hash: self.derive_network_hash(&ctx.contract_address),
        };
        proof {
            assert(settlement_fields(inputs) =~= seq![
                word_field(total_charges),
                word_field(exchange_rate as u64),
                word_field(settlement_amount),
                period_hash(ctx.timestamp),
                ctx.contract_address@,
            ]);
        }
        self.crypto_verifier.zk_verifier().verify_settlement_proof(proof_data, &inputs)
    }

    /// Checks an operator's signature.
    fn verify_bls_signature(&self, network_name: &str, message: &[u8], signature: &[u8]) -> (r: Result<bool>)
        ensures
            outcome(r) == contract_sig_check(self.operators(), network_name@, message@, signature@),
    {
        self.crypto_verifier.bls_verifier().verify_operator_signature(network_name, message, signature)
    }

    fn op_verify_proof(&mut self, ctx: &ExecutionContext) -> (r: Result<Flow>)
        requires
            old(self).stack@.len() <= stack_limit(),
        ensures
            final(self).kept(old(self)),
            final(self).storage == old(self).storage,
            agrees(
                execute_op(old(self).env_of(*ctx), old(self).state_of(*ctx, Seq::empty()), Instruction::VerifyProof),
                r,
                final(self).state_of(*ctx, Seq::empty()),
            ),
    {
        let proof_data = self.pop_bytes()?;
        let settlement_amount = self.pop()?;
        let exchange_rate = #[verifier::truncate] (self.pop()? as u32);
        let total_charges = self.pop()?;
        let is_valid = self.verify_zkp_proof(proof_data.as_slice(), total_charges, exchange_rate, settlement_amount, ctx)?;
        self.push(if is_valid { 1 } else { 0 })?;
        Ok(Flow::Next)
    }

    fn op_check_signature(&mut self, ctx: &ExecutionContext) -> (r: Result<Flow>)
        requires
            old(self).stack@.len() <= stack_limit(),
        ensures
            final(self).kept(old(self)),
            final(self).storage == old(self).storage,
            agrees(
                execute_op(old(self).env_of(*ctx), old(self).state_of(*ctx, Seq::empty()), Instruction::CheckSignature),
                r,
                final(self).state_of(*ctx, Seq::empty()),
            ),
    {
        let sig_data = self.pop_bytes()?;
        let message_data = self.pop_bytes()?;
        let network_bytes = self.pop_bytes()?;
        let network_name = match string_from_utf8(network_bytes) {
            Some(n) => n,
            None => {
                return Err(BlockchainError::InvalidOperation("Invalid network name".to_string()));
            },
        };
        let is_valid = self.verify_bls_signature(network_name.as_str(), message_data.as_slice(), sig_data.as_slice())?;
        self.push(if is_valid { 1 } else { 0 })?;
        Ok(Flow::Next)
    }

    /// Carries out an instruction whose gas is paid.
    #[verifier::rlimit(50)]
    fn apply(&mut self, instruction: &Instruction, ctx: &ExecutionContext, logs: &mut Vec<String>) -> (r: Result<Flow>)
        requires
            old(self).stack@.len() <= stack_limit(),
        ensures
            final(self).kept(old(self)),
            (r matches Ok(Flow::Stop)) <==> *instruction is Halt,
            old(self).storage.reliable() ==> agrees(
                execute_op(old(self).env_of(*ctx), old(self).state_of(*ctx, old(logs)@), *instruction),
                r,
                final(self).state_of(*ctx, final(logs)@),
            ),
    {
        match instruction {
            Instruction::Push(value) => {
                self.push(*value)?;
            },
            Instruction::Pop => {
                self.pop()?;
            },
            Instruction::Add => {
                let b = self.pop()?;
                let a = self.pop()?;
                self.push(a.wrapping_add(b))?;
            },
            Instruction::Mul => {
                let b = self.pop()?;
                let a = self.pop()?;
                self.push(a.wrapping_mul(b))?;
            },
            Instruction::Eq => {
                let b = self.pop()?;
                let a = self.pop()?;
                self.push(if a == b { 1 } else { 0 })?;
            },
            Instruction::JumpIf(addr) => {
                let condition = self.pop()?;
                if condition != 0 {
                    return Ok(Flow::Jump(*addr));
                }
            },
            Instruction::Store(key) => {
                let value = self.pop()?;
                let value_bytes = u64_to_le(value);
                self.storage.set(&ctx.contract_address, key, value_bytes)?;
            },
            Instruction::Load(key) => {
                let stored = self.storage.get(&ctx.contract_address, key)?;
                let value = match stored {
                    Some(b) => if b.len() == 8 {
                        proof {
                            assert(b@.subrange(0, 8) =~= b@);
                        }
                        u64_from_le(b.as_slice())
                    } else {
                        0
                    },
                    None => 0,
                };
                self.push(value)?;
            },
            Instruction::VerifyProof => {
                return self.op_verify_proof(ctx);
            },
            Instruction::CheckSignature => {
                return self.op_check_signature(ctx);
            },
            Instruction::CalculateSettlement => {
                let exchange_rate = self.pop()?;
                let total_charges = self.pop()?;
                self.push(total_charges.wrapping_mul(exchange_rate) / 100)?;
            },
            Instruction::GetTimestamp => {
                self.push(ctx.timestamp)?;
            },
            Instruction::GetCaller => {
                let caller_num = u64_from_le(ctx.caller.0.as_slice());
                self.push(caller_num)?;
            },
            Instruction::Log(message) => {
                let mut line = ctx.contract_address.to_hex();
                line.append(": ");
                line.append(message.as_str());
                logs.push(line);
                proof {
                    assert(log_texts(logs@) =~= log_texts(old(logs)@).push(log_line(ctx.contract_address@, message@)));
                }
            },
            Instruction::Halt => {
                return Ok(Flow::Stop);
            },
            _ => {
                return Err(BlockchainError::InvalidOperation(unsupported_message(instruction)));
            },
        }
        Ok(Flow::Next)
    }

    /// Pays an instruction's gas, then carries it out.
    fn execute_instruction(&mut self, instruction: &Instruction, ctx: &mut ExecutionContext, logs: &mut Vec<String>) -> (r: Result<Flow>)
        requires
            old(self).stack@.len() <= stack_limit(),
        ensures
            final(self).kept(old(self)),
            *final(ctx) == (ExecutionContext { gas_used: final(ctx).gas_used, ..*old(ctx) }),
            old(ctx).gas_used < old(ctx).gas_limit && r is Ok && !(r matches Ok(Flow::Stop))
                ==> old(ctx).gas_used < final(ctx).gas_used <= old(ctx).gas_limit,
            old(self).storage.reliable() ==> agrees(
                step(old(self).env_of(*old(ctx)), old(self).state_of(*old(ctx), old(logs)@), *instruction),
                r,
                final(self).state_of(*final(ctx), final(logs)@),
            ),
    {
        let gas_cost = self.get_instruction_gas_cost(instruction);
        self.consume_gas(ctx, gas_cost)?;
        assert(!(*instruction is Halt) ==> gas_cost >= 1);
        self.apply(instruction, ctx, logs)
    }

    /// Runs the contract at the context's address on `input`: the input
    /// bytes are pushed, first byte deepest, and the code runs from its first
    /// instruction as `run` describes. Refused when no code is deployed there
    /// or the input overflows the stack.
    pub fn execute(&mut self, context: ExecutionContext, input: &[u8]) -> (r: Result<ExecutionResult>)
        ensures
            final(self).storage().codes() == old(self).storage().codes(),
            final(self).storage().reliable() == old(self).storage().reliable(),
            final(self).settlement_key() == old(self).settlement_key(),
            final(self).operators() == old(self).operators(),
            old(self).storage().reliable() ==> match old(self).storage().codes().get(context.contract_address@) {
                None => r matches Err(BlockchainError::ContractNotFound),
                Some(code) => if input@.len() > stack_limit() {
                    r matches Err(BlockchainError::StackOverflow)
                } else {
                    let (fin, err) = run(
                        code,
                        vm_env(context, old(self).settlement_key(), old(self).operators()),
                        start_state(input@, context.gas_used, old(self).storage().stored()),
                    );
                    &&& r matches Ok(res) && reports(res, fin, err)
                    &&& final(self).storage().stored() == fin.stored
                },
            },
    {
        self.stack.clear();
        self.call_stack.clear();
        self.program_counter = 0;
        let mut ctx = context;
        let mut logs: Vec<String> = Vec::new();
        let code = match self.storage.get_code(&ctx.contract_address)? {
            Some(c) => c,
            None => {
                return Err(BlockchainError::ContractNotFound);
            },
        };
        let mut k: usize = 0;
        while k < input.len()
            invariant
                0 <= k <= input@.len(),
                self.stack@ == input@.subrange(0, k as int).map_values(|b: u8| b as u64),
                self.stack@.len() == k,
                k <= stack_limit(),
                self.storage == old(self).storage,
                self.crypto_verifier == old(self).crypto_verifier,
                self.program_counter == 0,
                ctx == context,
                old(self).storage.reliable() ==> old(self).storage.codes().get(context.contract_address@) == Some(code@),
            decreases input@.len() - k,
        {
            self.push(input[k] as u64)?;
            proof {
                assert(self.stack@ =~= input@.subrange(0, k + 1).map_values(|b: u8| b as u64));
            }
            k = k + 1;
        }
        proof {
            assert(input@.subrange(0, input@.len() as int) =~= input@);
            assert(log_texts(logs@) =~= Seq::<Seq<char>>::empty());
        }
        let ghost env = self.env_of(ctx);
        let ghost init = self.state_of(ctx, logs@);
        assert(init =~= start_state(input@, context.gas_used, old(self).storage.stored()));
        let ghost reliable = self.storage.reliable();
        let mut halted = false;
        while !halted && self.program_counter < code.len()
            invariant
                env == self.env_of(ctx),
                env == vm_env(context, old(self).settlement_key(), old(self).operators()),
                reliable ==> old(self).storage.codes().get(context.contract_address@) == Some(code@),
                input@.len() <= stack_limit(),
                init == start_state(input@, context.gas_used, old(self).storage.stored()),
                ctx == (ExecutionContext { gas_used: ctx.gas_used, ..context }),
                self.crypto_verifier == old(self).crypto_verifier,
                self.storage.codes() == old(self).storage.codes(),
                self.storage.reliable() == reliable,
                reliable == old(self).storage.reliable(),
                self.stack@.len() <= stack_limit(),
                reliable && halted ==> run(code@, env, init) == (self.state_of(ctx, logs@), None::<Seq<char>>),
                reliable && !halted ==> run(code@, env, self.state_of(ctx, logs@)) == run(code@, env, init),
            decreases (if halted { 0int } else { 1int }), ctx.gas_limit - ctx.gas_used,
        {
            if ctx.gas_used >= ctx.gas_limit {
                return Ok(ExecutionResult {
                    success: false,
                    return_value: None,
                    gas_used: ctx.gas_used,
                    logs,
                    error: Some("Out of gas".to_string()),
                });
            }
            let instruction = &code[self.program_counter];
            match self.execute_instruction(instruction, &mut ctx, &mut logs) {
                Ok(Flow::Stop) => {
                    halted = true;
                },
                Ok(Flow::Next) => {
                    self.program_counter = self.program_counter + 1;
                },
                Ok(Flow::Jump(a)) => {
                    self.program_counter = a;
                },
                Err(e) => {
                    return Ok(ExecutionResult {
                        success: false,
                        return_value: None,
                        gas_used: ctx.gas_used,
                        logs,
                        error: Some(e.message()),
                    });
                },
            }
        }
        let return_value = self.stack.pop();
        Ok(ExecutionResult { success: true, return_value, gas_used: ctx.gas_used, logs, error: None })
    }

    /// Whether code is deployed at an address.
    pub fn has_contract(&self, address: &Blake2bHash) -> (r: Result<bool>)
        ensures
            r matches Ok(b) ==> b == self.storage().codes().contains_key(address@),
            self.storage().reliable() ==> r is Ok,
    {
        Ok(self.storage.get_code(address)?.is_some())
    }
}

/// Number of values a 64-bit word can hold: stack arithmetic wraps modulo it.
pub open spec fn word_modulus() -> int {
    0x1_0000_0000_0000_0000
}

/// What the stack instructions do, with `x` just below `y` on top of the
/// stack and room to spare, once their gas is paid: `Add` and `Mul` replace
/// the two by their sum and product modulo 2^64, `Eq` by 1 when they are
/// equal and 0 otherwise, `CalculateSettlement` by the product (modulo 2^64)
/// divided by 100, rounded down; `Pop` drops `y`; `Push(v)` puts `v` on
/// top. Each goes on to the next instruction and pays its gas: 3 for `Add`
/// and `Eq`, 5 for `Mul`, 500 for `CalculateSettlement`, 1 for `Pop` and
/// `Push`.
pub proof fn law_stack_instructions(env: VmEnv, s: VmState, rest: Seq<u64>, x: u64, y: u64, v: u64)
    requires
        s.stack == rest.push(x).push(y),
        rest.len() + 2 < 1024,
        s.gas_used + 5 <= env.gas_limit,
    ensures
        step(env, s, Instruction::Add) == Step::Next(
            VmState { stack: rest.push(((x + y) % word_modulus()) as u64), pc: s.pc + 1, gas_used: (s.gas_used + 3) as u64, ..s },
        ),
        step(env, s, Instruction::Mul) == Step::Next(
            VmState { stack: rest.push(((x * y) % word_modulus()) as u64), pc: s.pc + 1, gas_used: (s.gas_used + 5) as u64, ..s },
        ),
        step(env, s, Instruction::Eq) == Step::Next(
            VmState { stack: rest.push(if x == y { 1u64 } else { 0u64 }), pc: s.pc + 1, gas_used: (s.gas_used + 3) as u64, ..s },
        ),
        s.gas_used + 500 <= env.gas_limit ==> step(env, s, Instruction::CalculateSettlement) == Step::Next(
            VmState {
                stack: rest.push((((x * y) % word_modulus()) / 100) as u64),
                pc: s.pc + 1,
                gas_used: (s.gas_used + 500) as u64,
                ..s
            },
        ),
        step(env, s, Instruction::Pop) == Step::Next(
            VmState { stack: rest.push(x), pc: s.pc + 1, gas_used: (s.gas_used + 1) as u64, ..s },
        ),
        step(env, s, Instruction::Push(v)) == Step::Next(
            VmState { stack: s.stack.push(v), pc: s.pc + 1, gas_used: (s.gas_used + 1) as u64, ..s },
        ),
{
    let st = s.stack;
    assert(below(st, 2) =~= rest);
    assert(top(st, 1) == x && top(st, 0) == y);
    assert(st.drop_last() =~= rest.push(x));
    assert(x.wrapping_add(y) == ((x + y) % word_modulus()) as u64) by (bit_vector);
    assert(x.wrapping_mul(y) == ((x * y) % word_modulus()) as u64) by (bit_vector);
    assert(x.wrapping_mul(y) / 100 == (((x * y) % word_modulus()) / 100) as u64) by (bit_vector);
}

/// A program that pushes `a` and `b`, multiplies them and halts ends without
/// error with `a * b` (modulo 2^64) pushed onto the stack it started from,
/// having paid 7 gas; the same program with `Add` leaves `a + b` (modulo
/// 2^64), having paid 5.
pub proof fn law_arithmetic_programs(env: VmEnv, s: VmState, a: u64, b: u64)
    requires
        s.pc == 0,
        s.stack.len() + 3 < 1024,
        s.gas_used + 7 < env.gas_limit,
    ensures
        run(seq![Instruction::Push(a), Instruction::Push(b), Instruction::Mul, Instruction::Halt], env, s) == (
            VmState { stack: s.stack.push(((a * b) % word_modulus()) as u64), pc: 3, gas_used: (s.gas_used + 7) as u64, ..s },
            None::<Seq<char>>,
        ),
        run(seq![Instruction::Push(a), Instruction::Push(b), Instruction::Add, Instruction::Halt], env, s) == (
            VmState { stack: s.stack.push(((a + b) % word_modulus()) as u64), pc: 3, gas_used: (s.gas_used + 5) as u64, ..s },
            None::<Seq<char>>,
        ),
{
    let s1 = VmState { stack: s.stack.push(a), pc: 1, gas_used: (s.gas_used + 1) as u64, ..s };
    let s2 = VmState { stack: s1.stack.push(b), pc: 2, gas_used: (s.gas_used + 2) as u64, ..s };
    law_stack_instructions(env, s2, s.stack, a, b, a);
    assert(s2.stack == s.stack.push(a).push(b));
    let pm = seq![Instruction::Push(a), Instruction::Push(b), Instruction::Mul, Instruction::Halt];
    let pa = seq![Instruction::Push(a), Instruction::Push(b), Instruction::Add, Instruction::Halt];
    assert(step(env, s, Instruction::Push(a)) == Step::Next(s1));
    assert(step(env, s1, Instruction::Push(b)) == Step::Next(s2));
    let s3m = VmState { stack: s.stack.push(((a * b) % word_modulus()) as u64), pc: 3, gas_used: (s.gas_used + 7) as u64, ..s };
    let s3a = VmState { stack: s.stack.push(((a + b) % word_modulus()) as u64), pc: 3, gas_used: (s.gas_used + 5) as u64, ..s };
    assert(step(env, s2, Instruction::Mul) == Step::Next(s3m));
    assert(step(env, s2, Instruction::Add) == Step::Next(s3a));
    assert(step(env, s3m, Instruction::Halt) == Step::Halted(s3m));
    assert(step(env, s3a, Instruction::Halt) == Step::Halted(s3a));
    assert(pm[0] == Instruction::Push(a) && pm[1] == Instruction::Push(b) && pm[2] == Instruction::Mul && pm[3] == Instruction::Halt);
    assert(pa[0] == Instruction::Push(a) && pa[1] == Instruction::Push(b) && pa[2] == Instruction::Add && pa[3] == Instruction::Halt);
    assert(run(pm, env, s3m) == (s3m, None::<Seq<char>>));
    assert(run(pm, env, s2) == run(pm, env, s3m));
    assert(run(pm, env, s1) == run(pm, env, s2));
    assert(run(pm, env, s) == run(pm, env, s1));
    assert(run(pa, env, s3a) == (s3a, None::<Seq<char>>));
    assert(run(pa, env, s2) == run(pa, env, s3a));
    assert(run(pa, env, s1) == run(pa, env, s2));
    assert(run(pa, env, s) == run(pa, env, s1));
}

/// How the machine's control flows and when it refuses an instruction. With
/// `c` on top of the stack, `JumpIf(a)` drops it and goes to `a` when `c` is
/// not zero, else on to the next instruction, paying 10 gas; `GetTimestamp`
/// pushes the call's time; `Halt` stops in the same state, free. Any
/// instruction whose gas would pass the limit (below the largest word)
/// fails with "Out of gas",
/// changing nothing; `Add`, `Mul` and `Eq` on fewer than two values fail with
/// "Stack underflow", and `Push` onto a full stack with "Stack overflow".
pub proof fn law_control_and_refusals(env: VmEnv, s: VmState, rest: Seq<u64>, c: u64, a: usize, v: u64, i: Instruction)
    requires
        s.gas_used + 20 <= env.gas_limit,
    ensures
        s.stack == rest.push(c) ==> step(env, s, Instruction::JumpIf(a)) == Step::Next(
            VmState { stack: rest, pc: if c != 0 { a as int } else { s.pc + 1 }, gas_used: (s.gas_used + 10) as u64, ..s },
        ),
        s.stack.len() < 1024 ==> step(env, s, Instruction::GetTimestamp) == Step::Next(
            VmState { stack: s.stack.push(env.timestamp), pc: s.pc + 1, gas_used: (s.gas_used + 20) as u64, ..s },
        ),
        step(env, s, Instruction::Halt) == Step::Halted(s),
        s.stack.len() < 2 ==> step(env, s, Instruction::Add) == Step::Failed(
            VmState { gas_used: (s.gas_used + 3) as u64, ..s },
            "Stack underflow"@,
        ),
        s.stack.len() < 2 ==> step(env, s, Instruction::Mul) == Step::Failed(
            VmState { gas_used: (s.gas_used + 5) as u64, ..s },
            "Stack underflow"@,
        ),
        s.stack.len() < 2 ==> step(env, s, Instruction::Eq) == Step::Failed(
            VmState { gas_used: (s.gas_used + 3) as u64, ..s },
            "Stack underflow"@,
        ),
        s.stack.len() >= 1024 ==> step(env, s, Instruction::Push(v)) == Step::Failed(
            VmState { gas_used: (s.gas_used + 1) as u64, ..s },
            "Stack overflow"@,
        ),
        env.gas_limit < s.gas_used + gas_cost(i) <= u64::MAX ==> step(env, s, i) == Step::Failed(s, "Out of gas"@),
{
    if s.stack == rest.push(c) {
        assert(s.stack.drop_last() =~= rest);
    }
    assert(VmState { gas_used: (s.gas_used + 0) as u64, ..s } =~= s);
}

/// What `Store(k)` writes, `Load(k)` reads back: with `v` on top of the
/// stack, storing it under `k` drops it and touches only the contract's
/// slot `k`, and loading `k` afterwards pushes `v` again; the two pay 700
/// gas. A slot never written reads as 0.
pub proof fn law_store_then_load(env: VmEnv, s: VmState, rest: Seq<u64>, v: u64, k: Blake2bHash, other: (Seq<u8>, Seq<u8>))
    requires
        s.stack == rest.push(v),
        rest.len() < 1024,
        s.gas_used + 700 <= env.gas_limit,
    ensures
        step(env, s, Instruction::Store(k)) matches Step::Next(t) && {
            &&& t.stack == rest
            &&& t.gas_used == s.gas_used + 500
            &&& t.stored.contains_key((env.contract, k@))
            &&& (other != (env.contract, k@) ==> t.stored.contains_key(other) == s.stored.contains_key(other)
                && t.stored[other] == s.stored[other])
            &&& step(env, t, Instruction::Load(k)) == Step::Next(
                VmState { stack: rest.push(v), pc: t.pc + 1, gas_used: (s.gas_used + 700) as u64, ..t },
            )
        },
        !s.stored.contains_key((env.contract, k@)) && s.stack.len() < 1024 && s.gas_used + 200 <= env.gas_limit
            ==> step(env, s, Instruction::Load(k)) == Step::Next(
            VmState { stack: s.stack.push(0), pc: s.pc + 1, gas_used: (s.gas_used + 200) as u64, ..s },
        ),
{
    law_le_round_trip(v);
    assert(s.stack.drop_last() =~= rest);
}

} // verus!
