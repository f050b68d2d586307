//! Settlement negotiation between operators: the messages they exchange, the
//! instructions that settle net positions, and the state each operator keeps
//! of negotiations and settlements.
use vstd::prelude::*;
use crate::clock::{debug_bytes, now_seconds, debug_str, format_debug_bytes, format_debug_str};
use crate::entropy::{random_u32, random_u64};
use crate::collections::VecMap;
use crate::encoding::{decimal_text, push_decimal_text, push_str};
use crate::network::netting::{
    abs_total, calculate_savings_percentage, calculate_net_positions, lemma_netting_abs_sum, savings_percentage,
};
use crate::network::netting::{first_seen, flows_view, gross, lemma_gross_fits, lemma_raw_net_bound, raw_net, net_positions, positions_view, calculate_triangular_netting};
use crate::primitives::error::{BlockchainError, Result};
use crate::primitives::primitives::{hash_data, hex_lower, network_display, sha256, Blake2bHash, NetworkId, NetworkIdView};
use crate::primitives::text::{network_debug, network_debug_text, text_bytes};

verus! {

/// Answer to a bilateral settlement proposal.
#[derive(Debug, Clone, Copy, PartialEq, Eq, Structural)]
pub enum SettlementResponseType {
    Accept,
    Reject,
    CounterOffer,
    RequestModification,
}

/// Answer to a netting proposal.
#[derive(Debug, Clone, Copy, PartialEq, Eq, Structural)]
pub enum NettingAgreementType {
    Agree,
    Disagree,
    ConditionalAgree,
}

/// How a settlement is paid.
#[derive(Debug, Clone, Copy, PartialEq, Eq, Structural)]
pub enum SettlementMethod {
    BankTransfer,
    CryptoTransfer,
    ClearingHouse,
    InKindServices,
}

/// Stage of a payment that a confirmation reports.
#[derive(Debug, Clone, Copy, PartialEq, Eq, Structural)]
pub enum ConfirmationType {
    PaymentSent,
    PaymentReceived,
    PaymentConfirmed,
    PaymentFailed,
}

/// Ground of a dispute.
#[derive(Debug, Clone, Copy, PartialEq, Eq, Structural)]
pub enum DisputeReason {
    AmountDiscrepancy,
    InvalidCDR,
    UnauthorizedCharges,
    TechnicalError,
    FraudSuspicion,
}

/// Stage of a negotiation.
#[derive(Debug, Clone, Copy, PartialEq, Eq, Structural)]
pub enum NegotiationStatus {
    Proposed,
    UnderReview,
    Accepted,
    Rejected,
    CounterProposed,
    Expired,
}

/// Stage of a settlement being paid.
#[derive(Debug, Clone, Copy, PartialEq, Eq, Structural)]
pub enum SettlementStatus {
    Pending,
    InProgress,
    Completed,
    Failed,
    Disputed,
}

/// Messages of settlement negotiation.
#[derive(Debug)]
pub enum SettlementMessage {
    /// Proposal of a bilateral settlement.
    InitiateSettlement {
        creditor_network: NetworkId,
        debtor_network: NetworkId,
        amount_cents: u64,
        currency: String,
        period_start: u64,
        period_end: u64,
        cdr_batch_hash: Blake2bHash,
        nonce: u64,
    },
    /// Answer to a bilateral proposal.
    SettlementResponse {
        proposal_hash: Blake2bHash,
        response: SettlementResponseType,
        counter_amount: Option<u64>,
        reason: Option<String>,
        responder_signature: Vec<u8>,
    },
    /// Proposal to net obligations among several networks; net amounts may
    /// be negative.
    TriangularNettingProposal {
        participants: Vec<NetworkId>,
        bilateral_amounts: Vec<(NetworkId, NetworkId, u64)>,
        net_settlements: Vec<(NetworkId, i64)>,
        savings_percentage: u32,
        coordinator: NetworkId,
        proposal_id: Blake2bHash,
    },
    /// Answer to a netting proposal.
    NettingAgreement {
        proposal_id: Blake2bHash,
        agreement_type: NettingAgreementType,
        participant_signature: Vec<u8>,
        zkp_proof: Option<Vec<u8>>,
    },
    /// Final instruction to pay.
    SettlementInstruction {
        settlement_id: Blake2bHash,
        creditor: NetworkId,
        debtor: NetworkId,
        final_amount: u64,
        currency: String,
        due_date: u64,
        settlement_method: SettlementMethod,
        coordinator_signature: Vec<u8>,
    },
    /// Report on a payment.
    SettlementConfirmation {
        settlement_id: Blake2bHash,
        confirmation_type: ConfirmationType,
        transaction_ref: Option<String>,
        timestamp: u64,
        confirmer_signature: Vec<u8>,
    },
    /// Dispute of a settlement.
    DisputeInitiation {
        settlement_id: Blake2bHash,
        dispute_reason: DisputeReason,
        disputed_amount: Option<u64>,
        evidence_hash: Blake2bHash,
        initiator: NetworkId,
    },
}

/// Instruction for one payment of a settlement.
#[derive(Debug)]
pub struct SettlementInstruction {
    pub instruction_id: Blake2bHash,
    pub creditor: NetworkId,
    pub debtor: NetworkId,
    pub amount: u64,
    pub currency: String,
    pub due_date: u64,
    pub settlement_method: SettlementMethod,
}

/// Seconds until a settlement instruction falls due (seven days).
pub const SETTLEMENT_DUE_SECONDS: u64 = 604800;

/// Positions owed money, in order.
pub open spec fn creditors_of(s: Seq<(NetworkIdView, int)>) -> Seq<(NetworkIdView, int)>
    decreases s.len(),
{
    if s.len() == 0 {
        Seq::empty()
    } else if s.last().1 > 0 {
        creditors_of(s.drop_last()).push(s.last())
    } else {
        creditors_of(s.drop_last())
    }
}

/// Positions owing money, in order.
pub open spec fn debtors_of(s: Seq<(NetworkIdView, int)>) -> Seq<(NetworkIdView, int)>
    decreases s.len(),
{
    if s.len() == 0 {
        Seq::empty()
    } else if s.last().1 < 0 {
        debtors_of(s.drop_last()).push(s.last())
    } else {
        debtors_of(s.drop_last())
    }
}

/// Payments (debtor, creditor, amount) of a debtor that owes `remaining`,
/// to the creditors in order: each is paid the lesser of what the debtor
/// still owes and the creditor's whole position.
pub open spec fn debtor_payments(d: NetworkIdView, remaining: int, cs: Seq<(NetworkIdView, int)>) -> Seq<
    (NetworkIdView, NetworkIdView, int),
>
    decreases cs.len(),
{
    if cs.len() == 0 || remaining == 0 {
        Seq::empty()
    } else {
        let pay = if remaining < cs[0].1 {
            remaining
        } else {
            cs[0].1
        };
        if pay > 0 {
            seq![(d, cs[0].0, pay)] + debtor_payments(d, remaining - pay, cs.drop_first())
        } else {
            debtor_payments(d, remaining, cs.drop_first())
        }
    }
}

/// Sum of the amounts of a list of payments.
pub open spec fn paid_total(p: Seq<(NetworkIdView, NetworkIdView, int)>) -> int
    decreases p.len(),
{
    if p.len() == 0 {
        0
    } else {
        p[0].2 + paid_total(p.drop_first())
    }
}

/// Sum of the creditors' positions.
pub open spec fn owed_total(cs: Seq<(NetworkIdView, int)>) -> int
    decreases cs.len(),
{
    if cs.len() == 0 {
        0
    } else {
        cs[0].1 + owed_total(cs.drop_first())
    }
}

/// A debtor pays exactly the lesser of its debt and what the creditors are
/// owed in all, each payment positive.
pub proof fn law_debtor_pays_its_debt(d: NetworkIdView, remaining: int, cs: Seq<(NetworkIdView, int)>)
    requires
        remaining >= 0,
        forall|i: int| 0 <= i < cs.len() ==> (#[trigger] cs[i]).1 > 0,
    ensures
        paid_total(debtor_payments(d, remaining, cs)) == if remaining < owed_total(cs) {
            remaining
        } else {
            owed_total(cs)
        },
        forall|i: int|
            0 <= i < debtor_payments(d, remaining, cs).len() ==> (#[trigger] debtor_payments(d, remaining, cs)[i]).2 > 0,
    decreases cs.len(),
{
    let rest = cs.drop_first();
    if cs.len() > 0 {
        assert forall|i: int| 0 <= i < rest.len() implies (#[trigger] rest[i]).1 > 0 by {
            assert(rest[i] == cs[i + 1]);
        }
        lemma_owed_total_nonneg(rest);
        let pay = if remaining < cs[0].1 {
            remaining
        } else {
            cs[0].1
        };
        law_debtor_pays_its_debt(d, remaining - pay, rest);
        law_debtor_pays_its_debt(d, remaining, rest);
        if remaining > 0 {
            let p = debtor_payments(d, remaining, cs);
            let tail = debtor_payments(d, remaining - pay, rest);
            assert(p == seq![(d, cs[0].0, pay)] + tail);
            assert(p.drop_first() =~= tail);
            assert forall|i: int| 0 <= i < p.len() implies (#[trigger] p[i]).2 > 0 by {
                if i > 0 {
                    assert(p[i] == tail[i - 1]);
                }
            }
        }
    }
}

proof fn lemma_owed_total_nonneg(cs: Seq<(NetworkIdView, int)>)
    requires
        forall|i: int| 0 <= i < cs.len() ==> (#[trigger] cs[i]).1 > 0,
    ensures
        owed_total(cs) >= 0,
    decreases cs.len(),
{
    if cs.len() > 0 {
        let rest = cs.drop_first();
        assert forall|i: int| 0 <= i < rest.len() implies (#[trigger] rest[i]).1 > 0 by {
            assert(rest[i] == cs[i + 1]);
        }
        lemma_owed_total_nonneg(rest);
    }
}

/// Payments of every debtor, debtor by debtor.
pub open spec fn payment_plan(ds: Seq<(NetworkIdView, int)>, cs: Seq<(NetworkIdView, int)>) -> Seq<
    (NetworkIdView, NetworkIdView, int),
>
    decreases ds.len(),
{
    if ds.len() == 0 {
        Seq::empty()
    } else {
        payment_plan(ds.drop_last(), cs) + debtor_payments(ds.last().0, -ds.last().1, cs)
    }
}

/// (debtor, creditor, amount) of each instruction.
pub open spec fn plan_view(v: Seq<SettlementInstruction>) -> Seq<(NetworkIdView, NetworkIdView, int)> {
    v.map_values(|i: SettlementInstruction| (i.debtor@, i.creditor@, i.amount as int))
}

/// Text whose hash identifies an instruction: the proposal's hex digest,
/// debtor, creditor and amount, separated by colons.
pub open spec fn instruction_text(proposal: Seq<u8>, debtor: NetworkIdView, creditor: NetworkIdView, amount: nat) -> Seq<
    char,
> {
    hex_lower(proposal) + seq![':'] + network_display(debtor) + seq![':'] + network_display(creditor) + seq![':']
        + decimal_text(amount)
}

/// Identifier of the instruction paying `amount` from `debtor` to `creditor`
/// under a proposal.
fn instruction_id(proposal_id: &Blake2bHash, debtor: &NetworkId, creditor: &NetworkId, amount: u64) -> (h: Blake2bHash)
    ensures
        h@ == sha256(vstd::utf8::encode_utf8(instruction_text(proposal_id@, debtor@, creditor@, amount as nat))),
{
    proof {
        reveal_strlit(":");
    }
    let mut text = proposal_id.to_hex();
    text.append(":");
    text.append(debtor.display().as_str());
    text.append(":");
    text.append(creditor.display().as_str());
    text.append(":");
    push_decimal_text(&mut text, amount);
    assert(text@ =~= instruction_text(proposal_id@, debtor@, creditor@, amount as nat));
    let mut bytes: Vec<u8> = Vec::new();
    push_str(&mut bytes, text.as_str());
    assert(bytes@ =~= vstd::utf8::encode_utf8(text@));
    hash_data(bytes.as_slice())
}

/// Whether an instruction carries the identifier, currency (EUR), due date
/// and method (bank transfer) that netting gives it.
pub open spec fn netting_instruction(i: SettlementInstruction, proposal: Seq<u8>, now: u64) -> bool {
    &&& i.instruction_id@ == sha256(
        vstd::utf8::encode_utf8(instruction_text(proposal, i.debtor@, i.creditor@, i.amount as nat)),
    )
    &&& i.currency@ == seq!['E', 'U', 'R']
    &&& i.due_date == now + SETTLEMENT_DUE_SECONDS
    &&& i.settlement_method == SettlementMethod::BankTransfer
}

/// Copies of the positions whose amount is positive (`positive`) or
/// negative (otherwise), in order.
fn split_positions(net: &[(NetworkId, i64)], positive: bool) -> (r: Vec<(NetworkId, i64)>)
    ensures
        positive ==> positions_view(r@) == creditors_of(positions_view(net@)),
        !positive ==> positions_view(r@) == debtors_of(positions_view(net@)),
{
    let ghost nv = positions_view(net@);
    let mut r: Vec<(NetworkId, i64)> = Vec::new();
    let mut k: usize = 0;
    while k < net.len()
        invariant
            k <= net@.len(),
            nv == positions_view(net@),
            positive ==> positions_view(r@) == creditors_of(nv.subrange(0, k as int)),
            !positive ==> positions_view(r@) == debtors_of(nv.subrange(0, k as int)),
        decreases net@.len() - k,
    {
        proof {
            assert(nv.subrange(0, k + 1).drop_last() =~= nv.subrange(0, k as int));
            assert(nv.subrange(0, k + 1).last() == nv[k as int]);
        }
        let a = net[k].1;
        if (positive && a > 0) || (!positive && a < 0) {
            let ghost before = positions_view(r@);
            r.push((net[k].0.copy_id(), a));
            assert(positions_view(r@) =~= before.push(nv[k as int]));
        }
        k = k + 1;
    }
    assert(nv.subrange(0, net@.len() as int) =~= nv);
    r
}

/// Instructions that settle net positions: each debtor, in order, pays the
/// creditors in order, each the lesser of what the debtor still owes and the
/// creditor's whole position, until its debt is paid. Every instruction is in
/// euros, by bank transfer, due seven days after `now`, and identified by the
/// hash of its proposal, parties and amount.
pub fn create_net_settlement_instructions(net_positions: &[(NetworkId, i64)], proposal_id: &Blake2bHash, now: u64) -> (r:
    Result<Vec<SettlementInstruction>>)
    requires
        forall|i: int| 0 <= i < net_positions@.len() ==> (#[trigger] net_positions@[i]).1 != i64::MIN,
        now + SETTLEMENT_DUE_SECONDS <= u64::MAX,
    ensures
        r matches Ok(v) && plan_view(v@) == payment_plan(
            debtors_of(positions_view(net_positions@)),
            creditors_of(positions_view(net_positions@)),
        ) && forall|i: int| 0 <= i < v@.len() ==> netting_instruction(#[trigger] v@[i], proposal_id@, now),
{
    let creditors = split_positions(net_positions, true);
    let debtors = split_positions(net_positions, false);
    let ghost cs = positions_view(creditors@);
    let ghost ds = positions_view(debtors@);
    proof {
        let nv = positions_view(net_positions@);
        assert forall|j: int| 0 <= j < nv.len() implies (#[trigger] nv[j]).1 > i64::MIN by {
            assert(nv[j].1 == net_positions@[j].1);
        }
        lemma_split_signs(nv);
    }
    let mut instructions: Vec<SettlementInstruction> = Vec::new();
    let mut d: usize = 0;
    while d < debtors.len()
        invariant
            d <= debtors@.len(),
            cs == positions_view(creditors@),
            ds == positions_view(debtors@),
            forall|i: int| 0 <= i < cs.len() ==> (#[trigger] cs[i]).1 > 0,
            forall|i: int| 0 <= i < ds.len() ==> i64::MIN < (#[trigger] ds[i]).1 < 0,
            ds == debtors_of(positions_view(net_positions@)),
            cs == creditors_of(positions_view(net_positions@)),
            now + SETTLEMENT_DUE_SECONDS <= u64::MAX,
            plan_view(instructions@) == payment_plan(ds.subrange(0, d as int), cs),
            forall|i: int| 0 <= i < instructions@.len() ==> netting_instruction(#[trigger] instructions@[i], proposal_id@, now),
        decreases debtors@.len() - d,
    {
        let debtor_amount = debtors[d].1;
        assert(ds[d as int].1 == debtor_amount);
        let mut remaining: u64 = (-debtor_amount) as u64;
        let ghost dv = ds[d as int].0;
        let ghost target = plan_view(instructions@) + debtor_payments(dv, remaining as int, cs);
        proof {
            assert(ds.subrange(0, d + 1).drop_last() =~= ds.subrange(0, d as int));
            assert(ds.subrange(0, d + 1).last() == ds[d as int]);
            assert(cs.subrange(0, cs.len() as int) =~= cs);
        }
        let mut c: usize = 0;
        while c < creditors.len()
            invariant
                c <= creditors@.len(),
                d < debtors@.len(),
                cs == positions_view(creditors@),
                ds == positions_view(debtors@),
                dv == ds[d as int].0,
                forall|i: int| 0 <= i < cs.len() ==> (#[trigger] cs[i]).1 > 0,
                now + SETTLEMENT_DUE_SECONDS <= u64::MAX,
                plan_view(instructions@) + debtor_payments(dv, remaining as int, cs.subrange(c as int, cs.len() as int)) == target,
                forall|i: int| 0 <= i < instructions@.len() ==> netting_instruction(#[trigger] instructions@[i], proposal_id@, now),
            ensures
                remaining == 0 || c >= creditors@.len(),
                c <= creditors@.len(),
                plan_view(instructions@) + debtor_payments(dv, remaining as int, cs.subrange(c as int, cs.len() as int)) == target,
                forall|i: int| 0 <= i < instructions@.len() ==> netting_instruction(#[trigger] instructions@[i], proposal_id@, now),
            decreases creditors@.len() - c,
        {
            if remaining == 0 {
                break;
            }
            let creditor_amount = creditors[c].1 as u64;
            let ghost rest = cs.subrange(c as int, cs.len() as int);
            proof {
                assert(rest[0] == cs[c as int]);
                assert(rest.drop_first() =~= cs.subrange(c + 1, cs.len() as int));
            }
            let payment_amount = if remaining < creditor_amount {
                remaining
            } else {
                creditor_amount
            };
            if payment_amount > 0 {
                let ghost before = plan_view(instructions@);
                let instruction = SettlementInstruction {
                    instruction_id: instruction_id(proposal_id, &debtors[d].0, &creditors[c].0, payment_amount),
                    debtor: debtors[d].0.copy_id(),
                    creditor: creditors[c].0.copy_id(),
                    amount: payment_amount,
                    currency: "EUR".to_string(),
                    due_date: now + SETTLEMENT_DUE_SECONDS,
                    settlement_method: SettlementMethod::BankTransfer,
                };
                proof {
                    reveal_strlit("EUR");
                }
                assert(instruction.currency@ == seq!['E', 'U', 'R']);
                assert(instruction.due_date == now + SETTLEMENT_DUE_SECONDS);
                assert(instruction.instruction_id@ == sha256(
                    vstd::utf8::encode_utf8(instruction_text(proposal_id@, instruction.debtor@, instruction.creditor@, instruction.amount as nat)),
                ));
                assert(netting_instruction(instruction, proposal_id@, now));
                instructions.push(instruction);
                remaining = remaining - payment_amount;
                assert(plan_view(instructions@) =~= before.push((dv, cs[c as int].0, payment_amount as int)));
                assert(before.push((dv, cs[c as int].0, payment_amount as int)) + debtor_payments(
                    dv,
                    remaining as int,
                    cs.subrange(c + 1, cs.len() as int),
                ) =~= before + (seq![(dv, cs[c as int].0, payment_amount as int)] + debtor_payments(
                    dv,
                    remaining as int,
                    cs.subrange(c + 1, cs.len() as int),
                )));
            }
            c = c + 1;
        }
        assert(debtor_payments(dv, remaining as int, cs.subrange(c as int, cs.len() as int)) =~= Seq::empty());
        assert(plan_view(instructions@) =~= target);
        d = d + 1;
    }
    assert(ds.subrange(0, debtors@.len() as int) =~= ds);
    Ok(instructions)
}

/// Creditors' positions are positive and debtors' negative, and no debtor
/// owes the least `i64`.
proof fn lemma_split_signs(s: Seq<(NetworkIdView, int)>)
    requires
        forall|j: int| 0 <= j < s.len() ==> (#[trigger] s[j]).1 > i64::MIN,
    ensures
        forall|i: int| 0 <= i < creditors_of(s).len() ==> (#[trigger] creditors_of(s)[i]).1 > 0,
        forall|i: int| 0 <= i < debtors_of(s).len() ==> i64::MIN < (#[trigger] debtors_of(s)[i]).1 < 0,
    decreases s.len(),
{
    if s.len() > 0 {
        let p = s.drop_last();
        assert forall|j: int| 0 <= j < p.len() implies (#[trigger] p[j]).1 > i64::MIN by {
            assert(p[j] == s[j]);
        }
        lemma_split_signs(p);
        assert(s.last() == s[s.len() - 1]);
        assert forall|i: int| 0 <= i < creditors_of(s).len() implies (#[trigger] creditors_of(s)[i]).1 > 0 by {
            if i < creditors_of(p).len() {
                assert(creditors_of(p)[i].1 > 0);
            }
        }
        assert forall|i: int| 0 <= i < debtors_of(s).len() implies i64::MIN < (#[trigger] debtors_of(s)[i]).1 < 0 by {
            if i < debtors_of(p).len() {
                assert(i64::MIN < debtors_of(p)[i].1 < 0);
            }
        }
    }
}

/// A negotiation that an operator takes part in.
pub struct SettlementNegotiation {
    pub proposal_id: Blake2bHash,
    pub participants: Vec<NetworkId>,
    pub status: NegotiationStatus,
    pub bilateral_amounts: VecMap<(NetworkId, NetworkId), u64>,
    pub responses: VecMap<NetworkId, SettlementResponseType>,
    pub created_at: u64,
    pub expires_at: u64,
}

/// A settlement instructed and not yet paid.
pub struct PendingSettlement {
    pub settlement_id: Blake2bHash,
    pub creditor: NetworkId,
    pub debtor: NetworkId,
    pub amount: u64,
    pub currency: String,
    pub due_date: u64,
    pub status: SettlementStatus,
    pub created_at: u64,
}

/// A settlement whose payment was confirmed.
pub struct CompletedSettlement {
    pub settlement_id: Blake2bHash,
    pub participants: Vec<NetworkId>,
    pub final_amounts: VecMap<NetworkId, i64>,
    pub completion_time: u64,
    pub savings_achieved: u32,
    pub method_used: SettlementMethod,
}

/// Work that handling a message leaves to the node.
pub enum SettlementAction {
    /// Broadcast a message on the settlement topic.
    Broadcast(SettlementMessage),
    /// Carry out a payment instruction.
    ExecuteInstruction(SettlementInstruction),
    /// Start paying a settlement that this node owes.
    InitiatePayment(Blake2bHash),
}

/// Obligations held by (from, to) pair, as plain values.
pub open spec fn pair_flows(s: Seq<((NetworkId, NetworkId), u64)>) -> Seq<(NetworkIdView, NetworkIdView, u64)> {
    s.map_values(|e: ((NetworkId, NetworkId), u64)| (e.0.0@, e.0.1@, e.1))
}

/// Whether the obligations of a negotiation can be netted: their gross fits
/// an `i64` and their matrix fits in memory.
pub open spec fn bilateral_fits(m: VecMap<(NetworkId, NetworkId), u64>) -> bool {
    &&& gross(pair_flows(m.entry_seq())) <= i64::MAX
    &&& 4 * m.entry_seq().len() * m.entry_seq().len() <= usize::MAX
}

/// Status that a response to a bilateral proposal gives its negotiation.
pub open spec fn response_status(r: SettlementResponseType) -> NegotiationStatus {
    match r {
        SettlementResponseType::Accept => NegotiationStatus::Accepted,
        SettlementResponseType::Reject => NegotiationStatus::Rejected,
        SettlementResponseType::CounterOffer => NegotiationStatus::CounterProposed,
        SettlementResponseType::RequestModification => NegotiationStatus::UnderReview,
    }
}

/// Status that a payment report gives its settlement.
pub open spec fn confirmation_status(c: ConfirmationType) -> SettlementStatus {
    match c {
        ConfirmationType::PaymentSent => SettlementStatus::InProgress,
        ConfirmationType::PaymentReceived => SettlementStatus::InProgress,
        ConfirmationType::PaymentConfirmed => SettlementStatus::Completed,
        ConfirmationType::PaymentFailed => SettlementStatus::Failed,
    }
}

/// A negotiation with another status.
pub open spec fn negotiation_with_status(n: SettlementNegotiation, s: NegotiationStatus) -> SettlementNegotiation {
    SettlementNegotiation { status: s, ..n }
}

/// A pending settlement with another status.
pub open spec fn settlement_with_status(p: PendingSettlement, s: SettlementStatus) -> PendingSettlement {
    PendingSettlement { status: s, ..p }
}

/// An operator's side of settlement negotiation: its negotiations, the
/// settlements instructed to it and those completed. Handling a message
/// updates this state and returns what the node must send or do.
pub struct SettlementMessaging {
    network_id: NetworkId,
    active_negotiations: VecMap<Blake2bHash, SettlementNegotiation>,
    pending_settlements: VecMap<Blake2bHash, PendingSettlement>,
    completed_settlements: Vec<CompletedSettlement>,
    auto_accept_threshold: u64,
    negotiation_timeout: u64,
}

/// Amount under which a bilateral settlement is accepted at once (EUR
/// 1000, in cents).
pub const AUTO_ACCEPT_THRESHOLD: u64 = 100000;

/// Seconds a negotiation stays open (one hour).
pub const NEGOTIATION_TIMEOUT_SECONDS: u64 = 3600;

impl SettlementMessaging {
    /// Every negotiation's obligations can be netted.
    #[verifier::type_invariant]
    closed spec fn wf(&self) -> bool {
        forall|k: Seq<u8>| #[trigger]
            self.active_negotiations@.contains_key(k) ==> bilateral_fits(self.active_negotiations@[k].bilateral_amounts)
    }

    /// This operator's network.
    pub closed spec fn local(&self) -> NetworkIdView {
        self.network_id@
    }

    /// Negotiations by proposal id.
    pub closed spec fn negotiations(&self) -> Map<Seq<u8>, SettlementNegotiation> {
        self.active_negotiations@
    }

    /// Instructed settlements not yet completed, by settlement id.
    pub closed spec fn pending(&self) -> Map<Seq<u8>, PendingSettlement> {
        self.pending_settlements@
    }

    /// Completed settlements, in order of completion.
    pub closed spec fn completed(&self) -> Seq<CompletedSettlement> {
        self.completed_settlements@
    }

    /// Amount under which bilateral settlements are accepted at once.
    pub closed spec fn threshold(&self) -> u64 {
        self.auto_accept_threshold
    }

    /// Seconds a negotiation stays open.
    pub closed spec fn timeout(&self) -> u64 {
        self.negotiation_timeout
    }

    /// State of an operator with no negotiation or settlement yet; bilateral
    /// settlements under EUR 1000 are accepted at once and negotiations stay
    /// open an hour.
    pub fn new(network_id: NetworkId) -> (m: Self)
        ensures
            m.local() == network_id@,
            m.negotiations() == Map::<Seq<u8>, SettlementNegotiation>::empty(),
            m.pending() == Map::<Seq<u8>, PendingSettlement>::empty(),
            m.completed().len() == 0,
            m.threshold() == AUTO_ACCEPT_THRESHOLD,
            m.timeout() == NEGOTIATION_TIMEOUT_SECONDS,
    {
        SettlementMessaging {
            network_id,
            active_negotiations: VecMap::new(),
            pending_settlements: VecMap::new(),
            completed_settlements: Vec::new(),
            auto_accept_threshold: AUTO_ACCEPT_THRESHOLD,
            negotiation_timeout: NEGOTIATION_TIMEOUT_SECONDS,
        }
    }

    /// Sets the status of a negotiation that exists.
    fn set_negotiation_status(&mut self, id: &Blake2bHash, status: NegotiationStatus)
        requires
            old(self).negotiations().contains_key(id@),
        ensures
            final(self).negotiations() == old(self).negotiations().insert(
                id@,
                negotiation_with_status(old(self).negotiations()[id@], status),
            ),
            final(self).pending() == old(self).pending(),
            final(self).completed() == old(self).completed(),
            final(self).local() == old(self).local(),
            final(self).threshold() == old(self).threshold(),
            final(self).timeout() == old(self).timeout(),
    {
        proof {
            use_type_invariant(&*self);
        }
        let mut negotiations = VecMap::new();
        std::mem::swap(&mut negotiations, &mut self.active_negotiations);
        match negotiations.remove(id) {
            Some(n) => {
                let mut n = n;
                n.status = status;
                negotiations.insert(id.clone(), n);
                assert(negotiations@ =~= old(self).negotiations().insert(
                    id@,
                    negotiation_with_status(old(self).negotiations()[id@], status),
                ));
            },
            None => {},
        }
        assert forall|k: Seq<u8>| #[trigger] negotiations@.contains_key(k) implies bilateral_fits(
            negotiations@[k].bilateral_amounts,
        ) by {
            assert(old(self).negotiations().contains_key(k));
        }
        self.active_negotiations = negotiations;
    }

    /// Sets the status of a pending settlement that exists.
    fn set_settlement_status(&mut self, id: &Blake2bHash, status: SettlementStatus)
        requires
            old(self).pending().contains_key(id@),
        ensures
            final(self).pending() == old(self).pending().insert(
                id@,
                settlement_with_status(old(self).pending()[id@], status),
            ),
            final(self).negotiations() == old(self).negotiations(),
            final(self).completed() == old(self).completed(),
            final(self).local() == old(self).local(),
            final(self).threshold() == old(self).threshold(),
            final(self).timeout() == old(self).timeout(),
    {
        proof {
            use_type_invariant(&*self);
        }
        let mut pending = VecMap::new();
        std::mem::swap(&mut pending, &mut self.pending_settlements);
        match pending.remove(id) {
            Some(p) => {
                let mut p = p;
                p.status = status;
                pending.insert(id.clone(), p);
                assert(pending@ =~= old(self).pending().insert(
                    id@,
                    settlement_with_status(old(self).pending()[id@], status),
                ));
            },
            None => {},
        }
        self.pending_settlements = pending;
    }
}

/// Whether two states have the same network and settings.
pub open spec fn same_config(a: SettlementMessaging, b: SettlementMessaging) -> bool {
    &&& a.local() == b.local()
    &&& a.threshold() == b.threshold()
    &&& a.timeout() == b.timeout()
}

/// State after a response to a bilateral proposal: a negotiation that exists
/// takes the response's status; nothing else changes.
pub open spec fn response_handled(
    s0: SettlementMessaging,
    s1: SettlementMessaging,
    proposal: Seq<u8>,
    response: SettlementResponseType,
) -> bool {
    &&& same_config(s0, s1)
    &&& s1.pending() == s0.pending()
    &&& s1.completed() == s0.completed()
    &&& s1.negotiations() == if s0.negotiations().contains_key(proposal) {
        s0.negotiations().insert(proposal, negotiation_with_status(s0.negotiations()[proposal], response_status(response)))
    } else {
        s0.negotiations()
    }
}

/// Whether a completed settlement records the confirmed payment of a
/// pending one: its id and parties, no final amounts, the confirmation's
/// time, no savings, by bank transfer.
pub open spec fn completion_record(c: CompletedSettlement, p: PendingSettlement, id: Seq<u8>, timestamp: u64) -> bool {
    &&& c.settlement_id@ == id
    &&& c.participants@.map_values(|n: NetworkId| n@) == seq![p.creditor@, p.debtor@]
    &&& c.final_amounts@ == Map::<NetworkIdView, i64>::empty()
    &&& c.completion_time == timestamp
    &&& c.savings_achieved == 0
    &&& c.method_used == SettlementMethod::BankTransfer
}

/// State after a payment report: a pending settlement that exists takes
/// the report's status, and once the payment is confirmed it leaves the
/// pending settlements for the completed ones.
pub open spec fn confirmation_handled(
    s0: SettlementMessaging,
    s1: SettlementMessaging,
    id: Seq<u8>,
    c: ConfirmationType,
    timestamp: u64,
) -> bool {
    &&& same_config(s0, s1)
    &&& s1.negotiations() == s0.negotiations()
    &&& if !s0.pending().contains_key(id) {
        s1.pending() == s0.pending() && s1.completed() == s0.completed()
    } else if c == ConfirmationType::PaymentConfirmed {
        &&& s1.pending() == s0.pending().remove(id)
        &&& s1.completed().len() == s0.completed().len() + 1
        &&& s1.completed().drop_last() == s0.completed()
        &&& completion_record(s1.completed().last(), s0.pending()[id], id, timestamp)
    } else {
        s1.pending() == s0.pending().insert(id, settlement_with_status(s0.pending()[id], confirmation_status(c)))
            && s1.completed() == s0.completed()
    }
}

/// State after a dispute: a pending settlement that exists is disputed.
pub open spec fn dispute_handled(s0: SettlementMessaging, s1: SettlementMessaging, id: Seq<u8>) -> bool {
    &&& same_config(s0, s1)
    &&& s1.negotiations() == s0.negotiations()
    &&& s1.completed() == s0.completed()
    &&& s1.pending() == if s0.pending().contains_key(id) {
        s0.pending().insert(id, settlement_with_status(s0.pending()[id], SettlementStatus::Disputed))
    } else {
        s0.pending()
    }
}

impl SettlementMessaging {
    /// A response to a bilateral proposal sets the status of its negotiation,
    /// if there is one.
    pub fn handle_settlement_response(&mut self, proposal_hash: &Blake2bHash, response: SettlementResponseType) -> (r:
        Vec<SettlementAction>)
        ensures
            response_handled(*old(self), *final(self), proposal_hash@, response),
            r@.len() == 0,
    {
        if self.active_negotiations.contains_key(proposal_hash) {
            let status = match response {
                SettlementResponseType::Accept => NegotiationStatus::Accepted,
                SettlementResponseType::Reject => NegotiationStatus::Rejected,
                SettlementResponseType::CounterOffer => NegotiationStatus::CounterProposed,
                SettlementResponseType::RequestModification => NegotiationStatus::UnderReview,
            };
            self.set_negotiation_status(proposal_hash, status);
        }
        Vec::new()
    }

    /// A payment report sets the status of its pending settlement, if there
    /// is one; a confirmed payment completes the settlement.
    pub fn handle_settlement_confirmation(
        &mut self,
        settlement_id: &Blake2bHash,
        confirmation_type: ConfirmationType,
        timestamp: u64,
    ) -> (r: Vec<SettlementAction>)
        ensures
            confirmation_handled(*old(self), *final(self), settlement_id@, confirmation_type, timestamp),
            r@.len() == 0,
    {
        proof {
            use_type_invariant(&*self);
        }
        if !self.pending_settlements.contains_key(settlement_id) {
            return Vec::new();
        }
        match confirmation_type {
            ConfirmationType::PaymentConfirmed => {
                let mut pending = VecMap::new();
                std::mem::swap(&mut pending, &mut self.pending_settlements);
                match pending.remove(settlement_id) {
                    Some(p) => {
                        let mut participants: Vec<NetworkId> = Vec::new();
                        participants.push(p.creditor.copy_id());
                        participants.push(p.debtor.copy_id());
                        let completed = CompletedSettlement {
                            settlement_id: *settlement_id,
                            participants,
                            final_amounts: VecMap::new(),
                            completion_time: timestamp,
                            savings_achieved: 0,
                            method_used: SettlementMethod::BankTransfer,
                        };
                        assert(completed.participants@.map_values(|n: NetworkId| n@) =~= seq![p.creditor@, p.debtor@]);
                        let mut done = Vec::new();
                        std::mem::swap(&mut done, &mut self.completed_settlements);
                        done.push(completed);
                        assert(done@.drop_last() =~= old(self).completed());
                        self.completed_settlements = done;
                    },
                    None => {},
                }
                self.pending_settlements = pending;
            },
            ConfirmationType::PaymentSent => {
                self.set_settlement_status(settlement_id, SettlementStatus::InProgress);
            },
            ConfirmationType::PaymentReceived => {
                self.set_settlement_status(settlement_id, SettlementStatus::InProgress);
            },
            ConfirmationType::PaymentFailed => {
                self.set_settlement_status(settlement_id, SettlementStatus::Failed);
            },
        }
        Vec::new()
    }

    /// A dispute marks its pending settlement as disputed, if there is one.
    pub fn handle_dispute_initiation(&mut self, settlement_id: &Blake2bHash) -> (r: Vec<SettlementAction>)
        ensures
            dispute_handled(*old(self), *final(self), settlement_id@),
            r@.len() == 0,
    {
        if self.pending_settlements.contains_key(settlement_id) {
            self.set_settlement_status(settlement_id, SettlementStatus::Disputed);
        }
        Vec::new()
    }
}

/// `Debug` text of a bilateral proposal.
pub open spec fn initiation_debug(
    creditor: NetworkIdView,
    debtor: NetworkIdView,
    amount: u64,
    currency: Seq<char>,
    period_start: u64,
    period_end: u64,
    batch: Seq<u8>,
    nonce: u64,
) -> Seq<char> {
    "InitiateSettlement { creditor_network: "@ + network_debug(creditor) + ", debtor_network: "@ + network_debug(debtor)
        + ", amount_cents: "@ + decimal_text(amount as nat) + ", currency: "@ + debug_str(currency) + ", period_start: "@
        + decimal_text(period_start as nat) + ", period_end: "@ + decimal_text(period_end as nat)
        + ", cdr_batch_hash: Blake2bHash("@ + debug_bytes(batch) + "), nonce: "@ + decimal_text(nonce as nat) + " }"@
}

/// `Debug` text of a bilateral proposal.
fn initiation_debug_text(
    creditor: &NetworkId,
    debtor: &NetworkId,
    amount: u64,
    currency: &String,
    period_start: u64,
    period_end: u64,
    batch: &Blake2bHash,
    nonce: u64,
) -> (s: String)
    ensures
        s@ == initiation_debug(creditor@, debtor@, amount, currency@, period_start, period_end, batch@, nonce),
{
    let mut s = "InitiateSettlement { creditor_network: ".to_string();
    s.append(network_debug_text(creditor).as_str());
    s.append(", debtor_network: ");
    s.append(network_debug_text(debtor).as_str());
    s.append(", amount_cents: ");
    push_decimal_text(&mut s, amount);
    s.append(", currency: ");
    s.append(format_debug_str(currency.as_str()).as_str());
    s.append(", period_start: ");
    push_decimal_text(&mut s, period_start);
    s.append(", period_end: ");
    push_decimal_text(&mut s, period_end);
    s.append(", cdr_batch_hash: Blake2bHash(");
    s.append(format_debug_bytes(&batch.0).as_str());
    s.append("), nonce: ");
    push_decimal_text(&mut s, nonce);
    s.append(" }");
    assert(s@ =~= initiation_debug(creditor@, debtor@, amount, currency@, period_start, period_end, batch@, nonce));
    s
}

/// Text whose hash identifies the answer to a bilateral proposal: the
/// creditor's `Debug` text, amount and currency, separated by hyphens.
pub open spec fn initiation_text(creditor: NetworkIdView, amount: nat, currency: Seq<char>) -> Seq<char> {
    network_debug(creditor) + "-"@ + decimal_text(amount) + "-"@ + currency
}

/// Answer that an operator owing a bilateral settlement gives: accept it
/// under the threshold, else ask for changes.
pub open spec fn initiation_answer(amount: u64, threshold: u64) -> SettlementResponseType {
    if amount <= threshold {
        SettlementResponseType::Accept
    } else {
        SettlementResponseType::RequestModification
    }
}

/// Net amount of the first position of `x`, or 0 when there is none.
pub open spec fn first_amount(s: Seq<(NetworkIdView, int)>, x: NetworkIdView) -> int
    decreases s.len(),
{
    if s.len() == 0 {
        0
    } else if s[0].0 == x {
        s[0].1
    } else {
        first_amount(s.drop_first(), x)
    }
}

/// Answer to a netting proposal: agree when it saves at least 30% and this
/// operator's net amount is within EUR 10000 either way, else agree on
/// conditions.
pub open spec fn netting_answer(savings_percentage: u32, our_net: int) -> NettingAgreementType {
    if savings_percentage >= 30 && -1000000 <= our_net <= 1000000 {
        NettingAgreementType::Agree
    } else {
        NettingAgreementType::ConditionalAgree
    }
}

/// Payments that settle the netting of obligations `b`.
pub open spec fn netting_plan(b: Seq<(NetworkIdView, NetworkIdView, u64)>) -> Seq<(NetworkIdView, NetworkIdView, int)> {
    payment_plan(debtors_of(net_positions(b)), creditors_of(net_positions(b)))
}

/// Whether the actions carry out, in order, the instructions that settle
/// the netting of `b` under a proposal.
pub open spec fn netting_actions(
    b: Seq<(NetworkIdView, NetworkIdView, u64)>,
    proposal: Seq<u8>,
    now: u64,
    a: Seq<SettlementAction>,
) -> bool {
    &&& a.len() == netting_plan(b).len()
    &&& forall|i: int|
        0 <= i < a.len() ==> (#[trigger] a[i] matches SettlementAction::ExecuteInstruction(ins) && (
            ins.debtor@,
            ins.creditor@,
            ins.amount as int,
        ) == netting_plan(b)[i] && netting_instruction(ins, proposal, now))
}

/// State after a payment instruction: it is recorded as pending (replacing
/// an earlier one of the same id), and when this operator is the debtor it
/// starts paying.
pub open spec fn instruction_recorded(
    s0: SettlementMessaging,
    s1: SettlementMessaging,
    p: PendingSettlement,
    a: Seq<SettlementAction>,
) -> bool {
    &&& same_config(s0, s1)
    &&& s1.negotiations() == s0.negotiations()
    &&& s1.completed() == s0.completed()
    &&& s1.pending() == s0.pending().insert(p.settlement_id@, p)
    &&& if p.debtor@ == s0.local() {
        a == seq![SettlementAction::InitiatePayment(p.settlement_id)]
    } else {
        a.len() == 0
    }
}

/// Answer to a bilateral proposal: when this operator is the debtor, a
/// response identified by the hash of the creditor's `Debug` text, amount
/// and currency, accepting under the threshold and else asking for changes,
/// with no counter amount, reason or signature; otherwise nothing.
pub open spec fn initiation_answered(
    s: SettlementMessaging,
    creditor: NetworkIdView,
    debtor: NetworkIdView,
    amount: u64,
    currency: Seq<char>,
    a: Seq<SettlementAction>,
) -> bool {
    if debtor != s.local() {
        a.len() == 0
    } else {
        a.len() == 1 && (a[0] matches SettlementAction::Broadcast(
            SettlementMessage::SettlementResponse { proposal_hash, response, counter_amount, reason, responder_signature },
        ) && proposal_hash@ == sha256(vstd::utf8::encode_utf8(initiation_text(creditor, amount as nat, currency)))
            && response == initiation_answer(amount, s.threshold()) && counter_amount is None && reason is None
            && responder_signature@.len() == 0)
    }
}

/// Answer to a netting proposal: when this operator takes part, an
/// agreement (see `netting_answer`) with no signature or proof; otherwise
/// nothing.
pub open spec fn netting_proposal_answered(
    s: SettlementMessaging,
    participants: Seq<NetworkIdView>,
    net: Seq<(NetworkIdView, int)>,
    savings_percentage: u32,
    proposal: Blake2bHash,
    a: Seq<SettlementAction>,
) -> bool {
    if !participants.contains(s.local()) {
        a.len() == 0
    } else {
        a.len() == 1 && (a[0] matches SettlementAction::Broadcast(
            SettlementMessage::NettingAgreement { proposal_id, agreement_type, participant_signature, zkp_proof },
        ) && proposal_id == proposal && agreement_type == netting_answer(savings_percentage, first_amount(net, s.local()))
            && participant_signature@.len() == 0 && zkp_proof is None)
    }
}

impl SettlementMessaging {
    /// A bilateral proposal to this operator as debtor is answered: accepted
    /// under the threshold, else returned for changes; the answer is
    /// identified by the hash of the creditor, amount and currency. Proposals
    /// to others are ignored.
    pub fn handle_settlement_initiation(
        &self,
        creditor_network: &NetworkId,
        debtor_network: &NetworkId,
        amount_cents: u64,
        currency: &String,
    ) -> (r: Vec<SettlementAction>)
        ensures
            initiation_answered(*self, creditor_network@, debtor_network@, amount_cents, currency@, r@),
    {
        let mut actions: Vec<SettlementAction> = Vec::new();
        if !(*debtor_network == self.network_id) {
            return actions;
        }
        let mut text = network_debug_text(creditor_network);
        text.append("-");
        push_decimal_text(&mut text, amount_cents);
        text.append("-");
        text.append(currency.as_str());
        assert(text@ =~= initiation_text(creditor_network@, amount_cents as nat, currency@));
        let proposal_hash = hash_data(text_bytes(&text).as_slice());
        let response = if amount_cents <= self.auto_accept_threshold {
            SettlementResponseType::Accept
        } else {
            SettlementResponseType::RequestModification
        };
        actions.push(
            SettlementAction::Broadcast(
                SettlementMessage::SettlementResponse {
                    proposal_hash,
                    response,
                    counter_amount: None,
                    reason: None,
                    responder_signature: Vec::new(),
                },
            ),
        );
        actions
    }

    /// A payment instruction is recorded as pending, created at `now`; when
    /// this operator is the debtor, it starts paying.
    pub fn handle_settlement_instruction(
        &mut self,
        settlement_id: Blake2bHash,
        creditor: NetworkId,
        debtor: NetworkId,
        final_amount: u64,
        currency: String,
        due_date: u64,
        now: u64,
    ) -> (r: Vec<SettlementAction>)
        ensures
            instruction_recorded(
                *old(self),
                *final(self),
                (PendingSettlement {
                    settlement_id,
                    creditor,
                    debtor,
                    amount: final_amount,
                    currency,
                    due_date,
                    status: SettlementStatus::Pending,
                    created_at: now,
                }),
                r@,
            ),
    {
        proof {
            use_type_invariant(&*self);
        }
        let ours = debtor == self.network_id;
        let pending_settlement = PendingSettlement {
            settlement_id,
            creditor,
            debtor,
            amount: final_amount,
            currency,
            due_date,
            status: SettlementStatus::Pending,
            created_at: now,
        };
        let mut pending = VecMap::new();
        std::mem::swap(&mut pending, &mut self.pending_settlements);
        pending.insert(settlement_id, pending_settlement);
        self.pending_settlements = pending;
        let mut actions: Vec<SettlementAction> = Vec::new();
        if ours {
            actions.push(SettlementAction::InitiatePayment(settlement_id));
        }
        assert(ours ==> actions@ =~= seq![SettlementAction::InitiatePayment(settlement_id)]);
        actions
    }

    /// A netting proposal naming this operator is answered: agreed when it
    /// saves at least 30% and this operator's net amount (that of its first
    /// position, or 0) is within EUR 10000 either way, else agreed on
    /// conditions. Proposals to others are ignored.
    pub fn handle_netting_proposal(
        &self,
        participants: &Vec<NetworkId>,
        net_settlements: &Vec<(NetworkId, i64)>,
        savings_percentage: u32,
        proposal_id: &Blake2bHash,
    ) -> (r: Vec<SettlementAction>)
        ensures
            netting_proposal_answered(
                *self,
                participants@.map_values(|n: NetworkId| n@),
                positions_view(net_settlements@),
                savings_percentage,
                *proposal_id,
                r@,
            ),
    {
        let ghost pv = participants@.map_values(|n: NetworkId| n@);
        let mut found = false;
        let mut i: usize = 0;
        while i < participants.len()
            invariant
                i <= participants@.len(),
                pv == participants@.map_values(|n: NetworkId| n@),
                found ==> pv.contains(self.network_id@),
                !found ==> forall|j: int| 0 <= j < i ==> pv[j] != self.network_id@,
            decreases participants@.len() - i,
        {
            assert(pv[i as int] == participants@[i as int]@);
            if participants[i] == self.network_id {
                found = true;
            }
            i = i + 1;
        }
        let mut actions: Vec<SettlementAction> = Vec::new();
        if !found {
            return actions;
        }
        let ghost nv = positions_view(net_settlements@);
        let mut our_net: i64 = 0;
        let mut k: usize = 0;
        assert(nv.subrange(0, nv.len() as int) =~= nv);
        while k < net_settlements.len()
            invariant_except_break
                our_net == 0,
            invariant
                k <= net_settlements@.len(),
                nv == positions_view(net_settlements@),
                first_amount(nv, self.network_id@) == first_amount(nv.subrange(k as int, nv.len() as int), self.network_id@),
            ensures
                our_net == first_amount(nv, self.network_id@),
            decreases net_settlements@.len() - k,
        {
            let ghost rest = nv.subrange(k as int, nv.len() as int);
            assert(rest[0] == nv[k as int]);
            assert(rest.drop_first() =~= nv.subrange(k + 1, nv.len() as int));
            if net_settlements[k].0 == self.network_id {
                our_net = net_settlements[k].1;
                break;
            }
            k = k + 1;
        }
        let agreement_type = if savings_percentage >= 30 && -1000000 <= our_net && our_net <= 1000000 {
            NettingAgreementType::Agree
        } else {
            NettingAgreementType::ConditionalAgree
        };
        actions.push(
            SettlementAction::Broadcast(
                SettlementMessage::NettingAgreement {
                    proposal_id: *proposal_id,
                    agreement_type,
                    participant_signature: Vec::new(),
                    zkp_proof: None,
                },
            ),
        );
        actions
    }
}

/// State after an answer to a netting proposal: with every participant
/// agreed (the answers so far and this one), the negotiation is accepted and
/// its netting settled; a refusal rejects it; a conditional agreement
/// changes nothing.
pub open spec fn agreement_handled(
    s0: SettlementMessaging,
    s1: SettlementMessaging,
    id: Seq<u8>,
    t: NettingAgreementType,
    now: u64,
    r: Result<Vec<SettlementAction>>,
) -> bool {
    &&& same_config(s0, s1)
    &&& s1.pending() == s0.pending()
    &&& s1.completed() == s0.completed()
    &&& if !s0.negotiations().contains_key(id) {
        s1.negotiations() == s0.negotiations() && (r matches Ok(a) && a@.len() == 0)
    } else {
        let n = s0.negotiations()[id];
        match t {
            NettingAgreementType::Agree => if n.responses.entry_seq().len() + 1 >= n.participants@.len() {
                &&& s1.negotiations() == s0.negotiations().insert(
                    id,
                    negotiation_with_status(n, NegotiationStatus::Accepted),
                )
                &&& r matches Ok(a) && netting_actions(pair_flows(n.bilateral_amounts.entry_seq()), id, now, a@)
            } else {
                s1.negotiations() == s0.negotiations() && (r matches Ok(a) && a@.len() == 0)
            },
            NettingAgreementType::Disagree => s1.negotiations() == s0.negotiations().insert(
                id,
                negotiation_with_status(n, NegotiationStatus::Rejected),
            ) && (r matches Ok(a) && a@.len() == 0),
            NettingAgreementType::ConditionalAgree => s1.negotiations() == s0.negotiations() && (r matches Ok(a)
                && a@.len() == 0),
        }
    }
}

impl SettlementMessaging {
    /// Settles a negotiation's netting: its obligations are netted and the
    /// instructions that settle the net positions are to be carried out, in
    /// order. An unknown negotiation is not found.
    pub fn execute_netting_settlement(&self, proposal_id: &Blake2bHash, now: u64) -> (r: Result<Vec<SettlementAction>>)
        requires
            now + SETTLEMENT_DUE_SECONDS <= u64::MAX,
        ensures
            !self.negotiations().contains_key(proposal_id@) ==> (r matches Err(BlockchainError::NotFound(m)) && m@
                == "Negotiation not found"@),
            self.negotiations().contains_key(proposal_id@) ==> (r matches Ok(a) && netting_actions(
                pair_flows(self.negotiations()[proposal_id@].bilateral_amounts.entry_seq()),
                proposal_id@,
                now,
                a@,
            )),
    {
        proof {
            use_type_invariant(self);
        }
        let negotiation = match self.active_negotiations.get(proposal_id) {
            Some(n) => n,
            None => {
                return Err(BlockchainError::NotFound("Negotiation not found".to_string()));
            },
        };
        let entries = negotiation.bilateral_amounts.entries();
        let ghost pf = pair_flows(entries@);
        let mut amounts: Vec<(NetworkId, NetworkId, u64)> = Vec::new();
        let mut k: usize = 0;
        while k < entries.len()
            invariant
                k <= entries@.len(),
                pf == pair_flows(entries@),
                flows_view(amounts@) == pf.subrange(0, k as int),
            decreases entries@.len() - k,
        {
            let e = &entries[k];
            let ghost before = flows_view(amounts@);
            let triple = (e.0.0.copy_id(), e.0.1.copy_id(), e.1);
            assert(pf[k as int] == (triple.0@, triple.1@, triple.2));
            amounts.push(triple);
            assert(flows_view(amounts@) =~= before.push(pf[k as int]));
            k = k + 1;
            assert(flows_view(amounts@) =~= pf.subrange(0, k as int));
        }
        assert(pf.subrange(0, entries@.len() as int) =~= pf);
        proof {
            lemma_gross_fits(flows_view(amounts@));
        }
        let net = match calculate_triangular_netting(amounts.as_slice()) {
            Ok(v) => v,
            Err(e) => {
                return Err(e);
            },
        };
        proof {
            assert forall|i: int| 0 <= i < net@.len() implies (#[trigger] net@[i]).1 != i64::MIN by {
                let x = positions_view(net@)[i];
                assert(x == net_positions(pf)[i]);
                assert(x.1 == net@[i].1 as int);
                assert(positions_view(net@).len() == net@.len());
                assert(net_positions(pf).len() == first_seen(pf).len());
                assert(i < first_seen(pf).len());
                let f = first_seen(pf)[i];
                assert(net_positions(pf)[i] == (f, raw_net(pf, f)));
                assert(x.1 == raw_net(pf, x.0));
                assert(gross(pf) <= i64::MAX);
                lemma_raw_net_bound(pf, x.0);
            }
        }
        let instructions = match create_net_settlement_instructions(net.as_slice(), proposal_id, now) {
            Ok(v) => v,
            Err(e) => {
                return Err(e);
            },
        };
        let ghost planned = instructions@;
        let mut rest = instructions;
        let mut actions: Vec<SettlementAction> = Vec::new();
        while rest.len() > 0
            invariant
                actions@.len() + rest@.len() == planned.len(),
                forall|j: int| 0 <= j < rest@.len() ==> rest@[j] == planned[actions@.len() + j],
                forall|i: int|
                    0 <= i < actions@.len() ==> (#[trigger] actions@[i] matches SettlementAction::ExecuteInstruction(ins)
                        && ins == planned[i]),
            decreases rest@.len(),
        {
            let ins = rest.remove(0);
            actions.push(SettlementAction::ExecuteInstruction(ins));
        }
        proof {
            assert forall|i: int| 0 <= i < actions@.len() implies (#[trigger] actions@[i] matches SettlementAction::ExecuteInstruction(ins)
                && (ins.debtor@, ins.creditor@, ins.amount as int) == netting_plan(pf)[i] && netting_instruction(ins, proposal_id@, now)) by {
                assert(plan_view(planned)[i] == (planned[i].debtor@, planned[i].creditor@, planned[i].amount as int));
            }
        }
        Ok(actions)
    }

    /// An answer to a netting proposal: when every participant has agreed
    /// (the answers so far and this one), the negotiation is accepted and
    /// its netting settled; a refusal rejects it; a conditional agreement
    /// changes nothing.
    pub fn handle_netting_agreement(&mut self, proposal_id: &Blake2bHash, agreement_type: NettingAgreementType, now: u64) -> (r:
        Result<Vec<SettlementAction>>)
        requires
            now + SETTLEMENT_DUE_SECONDS <= u64::MAX,
        ensures
            agreement_handled(*old(self), *final(self), proposal_id@, agreement_type, now, r),
    {
        let all_agreed = match self.active_negotiations.get(proposal_id) {
            Some(n) => n.participants.len() == 0 || n.responses.len() >= n.participants.len() - 1,
            None => {
                return Ok(Vec::new());
            },
        };
        match agreement_type {
            NettingAgreementType::Agree => {
                if all_agreed {
                    self.set_negotiation_status(proposal_id, NegotiationStatus::Accepted);
                    return self.execute_netting_settlement(proposal_id, now);
                }
                Ok(Vec::new())
            },
            NettingAgreementType::Disagree => {
                self.set_negotiation_status(proposal_id, NegotiationStatus::Rejected);
                Ok(Vec::new())
            },
            NettingAgreementType::ConditionalAgree => Ok(Vec::new()),
        }
    }
}

/// What handling a message received at `now` does (see the handlers).
pub open spec fn message_handled(
    s0: SettlementMessaging,
    s1: SettlementMessaging,
    m: SettlementMessage,
    now: u64,
    r: Result<Vec<SettlementAction>>,
) -> bool {
    match m {
        SettlementMessage::InitiateSettlement { creditor_network, debtor_network, amount_cents, currency, .. } => {
            &&& s1 == s0
            &&& r matches Ok(a) && initiation_answered(
                s0,
                creditor_network@,
                debtor_network@,
                amount_cents,
                currency@,
                a@,
            )
        },
        SettlementMessage::SettlementResponse { proposal_hash, response, .. } => {
            &&& response_handled(s0, s1, proposal_hash@, response)
            &&& r matches Ok(a) && a@.len() == 0
        },
        SettlementMessage::TriangularNettingProposal {
            participants,
            net_settlements,
            savings_percentage,
            proposal_id,
            ..
        } => {
            &&& s1 == s0
            &&& r matches Ok(a) && netting_proposal_answered(
                s0,
                participants@.map_values(|n: NetworkId| n@),
                positions_view(net_settlements@),
                savings_percentage,
                proposal_id,
                a@,
            )
        },
        SettlementMessage::NettingAgreement { proposal_id, agreement_type, .. } => agreement_handled(
            s0,
            s1,
            proposal_id@,
            agreement_type,
            now,
            r,
        ),
        SettlementMessage::SettlementInstruction {
            settlement_id,
            creditor,
            debtor,
            final_amount,
            currency,
            due_date,
            ..
        } => r matches Ok(a) && instruction_recorded(
            s0,
            s1,
            (PendingSettlement {
                settlement_id,
                creditor,
                debtor,
                amount: final_amount,
                currency,
                due_date,
                status: SettlementStatus::Pending,
                created_at: now,
            }),
            a@,
        ),
        SettlementMessage::SettlementConfirmation { settlement_id, confirmation_type, timestamp, .. } => {
            &&& confirmation_handled(s0, s1, settlement_id@, confirmation_type, timestamp)
            &&& r matches Ok(a) && a@.len() == 0
        },
        SettlementMessage::DisputeInitiation { settlement_id, .. } => {
            &&& dispute_handled(s0, s1, settlement_id@)
            &&& r matches Ok(a) && a@.len() == 0
        },
    }
}

impl SettlementMessaging {
    /// Handles a settlement message received at time `now`: updates this
    /// operator's state and returns what the node must broadcast or do.
    pub fn handle_settlement_message_at(&mut self, message: SettlementMessage, now: u64) -> (r: Result<Vec<SettlementAction>>)
        requires
            now + SETTLEMENT_DUE_SECONDS <= u64::MAX,
        ensures
            message_handled(*old(self), *final(self), message, now, r),
    {
        match message {
            SettlementMessage::InitiateSettlement { creditor_network, debtor_network, amount_cents, currency, .. } => {
                Ok(self.handle_settlement_initiation(&creditor_network, &debtor_network, amount_cents, &currency))
            },
            SettlementMessage::SettlementResponse { proposal_hash, response, .. } => {
                Ok(self.handle_settlement_response(&proposal_hash, response))
            },
            SettlementMessage::TriangularNettingProposal {
                participants,
                net_settlements,
                savings_percentage,
                proposal_id,
                ..
            } => {
                Ok(self.handle_netting_proposal(&participants, &net_settlements, savings_percentage, &proposal_id))
            },
            SettlementMessage::NettingAgreement { proposal_id, agreement_type, .. } => {
                self.handle_netting_agreement(&proposal_id, agreement_type, now)
            },
            SettlementMessage::SettlementInstruction {
                settlement_id,
                creditor,
                debtor,
                final_amount,
                currency,
                due_date,
                ..
            } => {
                Ok(self.handle_settlement_instruction(settlement_id, creditor, debtor, final_amount, currency, due_date, now))
            },
            SettlementMessage::SettlementConfirmation { settlement_id, confirmation_type, timestamp, .. } => {
                Ok(self.handle_settlement_confirmation(&settlement_id, confirmation_type, timestamp))
            },
            SettlementMessage::DisputeInitiation { settlement_id, .. } => {
                Ok(self.handle_dispute_initiation(&settlement_id))
            },
        }
    }
}

/// Views of a list of networks.
pub open spec fn ids_view(v: Seq<NetworkId>) -> Seq<NetworkIdView> {
    v.map_values(|n: NetworkId| n@)
}

/// Copy of a list of networks.
fn copy_networks(v: &Vec<NetworkId>) -> (r: Vec<NetworkId>)
    ensures
        ids_view(r@) == ids_view(v@),
{
    let mut r: Vec<NetworkId> = Vec::new();
    let mut i: usize = 0;
    while i < v.len()
        invariant
            i <= v@.len(),
            ids_view(r@) == ids_view(v@).subrange(0, i as int),
        decreases v@.len() - i,
    {
        let ghost before = ids_view(r@);
        let n = v[i].copy_id();
        r.push(n);
        assert(ids_view(r@) =~= before.push(v@[i as int]@));
        i = i + 1;
        assert(ids_view(r@) =~= ids_view(v@).subrange(0, i as int));
    }
    assert(ids_view(v@).subrange(0, v@.len() as int) =~= ids_view(v@));
    r
}

/// Copy of a list of obligations.
fn copy_flows(v: &Vec<(NetworkId, NetworkId, u64)>) -> (r: Vec<(NetworkId, NetworkId, u64)>)
    ensures
        flows_view(r@) == flows_view(v@),
{
    let mut r: Vec<(NetworkId, NetworkId, u64)> = Vec::new();
    let mut i: usize = 0;
    while i < v.len()
        invariant
            i <= v@.len(),
            flows_view(r@) == flows_view(v@).subrange(0, i as int),
        decreases v@.len() - i,
    {
        let ghost before = flows_view(r@);
        let e = (v[i].0.copy_id(), v[i].1.copy_id(), v[i].2);
        r.push(e);
        assert(flows_view(r@) =~= before.push(flows_view(v@)[i as int]));
        i = i + 1;
        assert(flows_view(r@) =~= flows_view(v@).subrange(0, i as int));
    }
    assert(flows_view(v@).subrange(0, v@.len() as int) =~= flows_view(v@));
    r
}

/// Obligations by (from, to) pair, a later amount for a pair replacing an
/// earlier one.
pub open spec fn pair_map(b: Seq<(NetworkIdView, NetworkIdView, u64)>) -> Map<(NetworkIdView, NetworkIdView), u64>
    decreases b.len(),
{
    if b.len() == 0 {
        Map::empty()
    } else {
        pair_map(b.drop_last()).insert((b.last().0, b.last().1), b.last().2)
    }
}

proof fn lemma_gross_update(x: Seq<(NetworkIdView, NetworkIdView, u64)>, i: int, y: (NetworkIdView, NetworkIdView, u64))
    requires
        0 <= i < x.len(),
    ensures
        gross(x.update(i, y)) == gross(x) - x[i].2 + y.2,
    decreases x.len(),
{
    if i == x.len() - 1 {
        assert(x.update(i, y).drop_last() =~= x.drop_last());
    } else {
        lemma_gross_update(x.drop_last(), i, y);
        assert(x.update(i, y).drop_last() =~= x.drop_last().update(i, y));
    }
}

/// Obligations held by (from, to) pair, each pair once, the last amount
/// given for a pair kept; their gross is at most that of `bilateral`.
fn pair_amounts(bilateral: &Vec<(NetworkId, NetworkId, u64)>) -> (m: VecMap<(NetworkId, NetworkId), u64>)
    requires
        gross(flows_view(bilateral@)) <= i64::MAX,
    ensures
        m@ == pair_map(flows_view(bilateral@)),
        gross(pair_flows(m.entry_seq())) <= gross(flows_view(bilateral@)),
        m.entry_seq().len() <= bilateral@.len(),
{
    let ghost bv = flows_view(bilateral@);
    let mut m: VecMap<(NetworkId, NetworkId), u64> = VecMap::new();
    let mut k: usize = 0;
    while k < bilateral.len()
        invariant
            k <= bilateral@.len(),
            bv == flows_view(bilateral@),
            m@ == pair_map(bv.subrange(0, k as int)),
            gross(pair_flows(m.entry_seq())) <= gross(bv.subrange(0, k as int)),
            m.entry_seq().len() <= k,
        decreases bilateral@.len() - k,
    {
        let ghost s0 = m.entry_seq();
        let key = (bilateral[k].0.copy_id(), bilateral[k].1.copy_id());
        let amount = bilateral[k].2;
        assert(bv[k as int] == (key.0@, key.1@, amount));
        m.insert(key, amount);
        proof {
            assert(bv.subrange(0, k + 1).drop_last() =~= bv.subrange(0, k as int));
            assert(bv.subrange(0, k + 1).last() == bv[k as int]);
            let e = ((key.0, key.1), amount);
            if s0.len() < m.entry_seq().len() {
                assert(m.entry_seq() == s0.push(e));
                assert(pair_flows(m.entry_seq()) =~= pair_flows(s0).push(bv[k as int]));
                assert(pair_flows(s0).push(bv[k as int]).drop_last() =~= pair_flows(s0));
            } else {
                let i = choose|i: int|
                    0 <= i < s0.len() && s0[i].0@ == key@ && m.entry_seq() == s0.update(i, (key, amount));
                assert(pair_flows(m.entry_seq()) =~= pair_flows(s0).update(i, bv[k as int]));
                lemma_gross_update(pair_flows(s0), i, bv[k as int]);
            }
        }
        k = k + 1;
    }
    assert(bv.subrange(0, bilateral@.len() as int) =~= bv);
    m
}

/// Text whose hash identifies a netting proposal: `netting-`, the time and
/// a random number, separated by a hyphen.
pub open spec fn netting_id_text(now: u64, nonce: u32) -> Seq<char> {
    "netting-"@ + decimal_text(now as nat) + "-"@ + decimal_text(nonce as nat)
}

/// Whether a negotiation is newly opened under an id, among networks, at
/// `now`, until `expires_at`, with no answers yet and the given obligations.
pub open spec fn opened_negotiation(
    n: SettlementNegotiation,
    id: Blake2bHash,
    participants: Seq<NetworkIdView>,
    bilateral: Map<(NetworkIdView, NetworkIdView), u64>,
    now: u64,
    expires_at: u64,
) -> bool {
    &&& n.proposal_id == id
    &&& ids_view(n.participants@) == participants
    &&& n.status == NegotiationStatus::Proposed
    &&& n.bilateral_amounts@ == bilateral
    &&& n.responses@ == Map::<NetworkIdView, SettlementResponseType>::empty()
    &&& n.created_at == now
    &&& n.expires_at == expires_at
}

/// Seconds a netting proposal stays open (half an hour).
pub const NETTING_TIMEOUT_SECONDS: u64 = 1800;

impl SettlementMessaging {
    /// Adds a negotiation whose obligations can be netted.
    fn open_negotiation(&mut self, id: Blake2bHash, n: SettlementNegotiation)
        requires
            bilateral_fits(n.bilateral_amounts),
        ensures
            final(self).negotiations() == old(self).negotiations().insert(id@, n),
            final(self).pending() == old(self).pending(),
            final(self).completed() == old(self).completed(),
            same_config(*old(self), *final(self)),
    {
        proof {
            use_type_invariant(&*self);
        }
        let mut negotiations = VecMap::new();
        std::mem::swap(&mut negotiations, &mut self.active_negotiations);
        negotiations.insert(id, n);
        assert forall|k: Seq<u8>| #[trigger] negotiations@.contains_key(k) implies bilateral_fits(
            negotiations@[k].bilateral_amounts,
        ) by {
            if k != id@ {
                assert(old(self).negotiations().contains_key(k));
            }
        }
        self.active_negotiations = negotiations;
    }

    /// Proposes a bilateral settlement of `amount_cents` owed by
    /// `debtor_network` to this operator, at `now` with a random `nonce`: the
    /// proposal is to be broadcast, and a negotiation between the two
    /// networks is opened for an hour under the hash of the proposal's
    /// `Debug` text.
    pub fn initiate_settlement_at(
        &mut self,
        debtor_network: NetworkId,
        amount_cents: u64,
        currency: String,
        period_start: u64,
        period_end: u64,
        cdr_batch_hash: Blake2bHash,
        nonce: u64,
        now: u64,
    ) -> (r: (Blake2bHash, Vec<SettlementAction>))
        requires
            now + NEGOTIATION_TIMEOUT_SECONDS <= u64::MAX,
        ensures
            r.0@ == sha256(
                vstd::utf8::encode_utf8(
                    initiation_debug(
                        old(self).local(),
                        debtor_network@,
                        amount_cents,
                        currency@,
                        period_start,
                        period_end,
                        cdr_batch_hash@,
                        nonce,
                    ),
                ),
            ),
            r.1@.len() == 1,
            r.1@[0] matches SettlementAction::Broadcast(SettlementMessage::InitiateSettlement {
                creditor_network: c,
                debtor_network: d,
                amount_cents: a,
                currency: cur,
                period_start: ps,
                period_end: pe,
                cdr_batch_hash: h,
                nonce: n,
            }) && c@ == old(self).local() && d@ == debtor_network@ && a == amount_cents && cur@ == currency@ && ps
                == period_start && pe == period_end && h == cdr_batch_hash && n == nonce,
            final(self).negotiations() == old(self).negotiations().insert(r.0@, final(self).negotiations()[r.0@]),
            opened_negotiation(
                final(self).negotiations()[r.0@],
                r.0,
                seq![old(self).local(), debtor_network@],
                Map::empty(),
                now,
                (now + NEGOTIATION_TIMEOUT_SECONDS) as u64,
            ),
            final(self).pending() == old(self).pending(),
            final(self).completed() == old(self).completed(),
            same_config(*old(self), *final(self)),
    {
        let text = initiation_debug_text(
            &self.network_id,
            &debtor_network,
            amount_cents,
            &currency,
            period_start,
            period_end,
            &cdr_batch_hash,
            nonce,
        );
        let proposal_id = hash_data(text_bytes(&text).as_slice());
        let message = SettlementMessage::InitiateSettlement {
            creditor_network: self.network_id.copy_id(),
            debtor_network: debtor_network.copy_id(),
            amount_cents,
            currency,
            period_start,
            period_end,
            cdr_batch_hash,
            nonce,
        };
        let mut participants: Vec<NetworkId> = Vec::new();
        participants.push(self.network_id.copy_id());
        participants.push(debtor_network);
        let negotiation = SettlementNegotiation {
            proposal_id,
            participants,
            status: NegotiationStatus::Proposed,
            bilateral_amounts: VecMap::new(),
            responses: VecMap::new(),
            created_at: now,
            expires_at: now + NEGOTIATION_TIMEOUT_SECONDS,
        };
        assert(ids_view(negotiation.participants@) =~= seq![self.network_id@, debtor_network@]);
        assert(pair_flows(negotiation.bilateral_amounts.entry_seq()) =~= Seq::empty());
        self.open_negotiation(proposal_id, negotiation);
        let mut actions: Vec<SettlementAction> = Vec::new();
        actions.push(SettlementAction::Broadcast(message));
        (proposal_id, actions)
    }

    /// Proposes netting `bilateral_amounts` among `participants`, at `now`
    /// with a random `nonce`: the proposal, carrying the net positions and
    /// what netting saves, is to be broadcast, and a negotiation is opened
    /// for half an hour under the hash of `netting-`, the time and the
    /// nonce, holding the obligations by pair.
    pub fn propose_triangular_netting_at(
        &mut self,
        participants: Vec<NetworkId>,
        bilateral_amounts: Vec<(NetworkId, NetworkId, u64)>,
        now: u64,
        nonce: u32,
    ) -> (r: (Blake2bHash, Vec<SettlementAction>))
        requires
            gross(flows_view(bilateral_amounts@)) <= i64::MAX,
            4 * bilateral_amounts@.len() * bilateral_amounts@.len() <= usize::MAX,
            gross(flows_view(bilateral_amounts@)) != 0 ==> (gross(flows_view(bilateral_amounts@)) - abs_total(
                flows_view(bilateral_amounts@),
                first_seen(flows_view(bilateral_amounts@)),
            ) / 2) * 100 <= u64::MAX,
            now + NETTING_TIMEOUT_SECONDS <= u64::MAX,
        ensures
            r.0@ == sha256(vstd::utf8::encode_utf8(netting_id_text(now, nonce))),
            r.1@.len() == 1,
            r.1@[0] matches SettlementAction::Broadcast(SettlementMessage::TriangularNettingProposal {
                participants: p,
                bilateral_amounts: b,
                net_settlements: net,
                savings_percentage: sp,
                coordinator: c,
                proposal_id: id,
            }) && ids_view(p@) == ids_view(participants@) && flows_view(b@) == flows_view(bilateral_amounts@)
                && positions_view(net@) == net_positions(flows_view(bilateral_amounts@)) && sp == savings_percentage(
                gross(flows_view(bilateral_amounts@)) as int,
                abs_total(flows_view(bilateral_amounts@), first_seen(flows_view(bilateral_amounts@))),
            ) && c@ == old(self).local() && id == r.0,
            final(self).negotiations() == old(self).negotiations().insert(r.0@, final(self).negotiations()[r.0@]),
            opened_negotiation(
                final(self).negotiations()[r.0@],
                r.0,
                ids_view(participants@),
                pair_map(flows_view(bilateral_amounts@)),
                now,
                (now + NETTING_TIMEOUT_SECONDS) as u64,
            ),
            final(self).pending() == old(self).pending(),
            final(self).completed() == old(self).completed(),
            same_config(*old(self), *final(self)),
    {
        let ghost bv = flows_view(bilateral_amounts@);
        proof {
            lemma_gross_fits(flows_view(bilateral_amounts@));
        }
        let net_settlements = calculate_net_positions(bilateral_amounts.as_slice());
        proof {
            lemma_netting_abs_sum(bv);
            assert forall|i: int| 0 <= i < net_settlements@.len() implies (#[trigger] net_settlements@[i]).1 != i64::MIN by {
                let x = positions_view(net_settlements@)[i];
                assert(net_positions(bv).len() == first_seen(bv).len());
                let f = first_seen(bv)[i];
                assert(net_positions(bv)[i] == (f, raw_net(bv, f)));
                assert(x.1 == net_settlements@[i].1 as int);
                lemma_raw_net_bound(bv, f);
            }
        }
        let savings = calculate_savings_percentage(bilateral_amounts.as_slice(), net_settlements.as_slice());
        proof {
            reveal_strlit("netting-");
            reveal_strlit("-");
        }
        let mut text = "netting-".to_string();
        push_decimal_text(&mut text, now);
        text.append("-");
        push_decimal_text(&mut text, nonce as u64);
        assert(text@ =~= netting_id_text(now, nonce));
        let proposal_id = hash_data(text_bytes(&text).as_slice());
        let message = SettlementMessage::TriangularNettingProposal {
            participants: copy_networks(&participants),
            bilateral_amounts: copy_flows(&bilateral_amounts),
            net_settlements,
            savings_percentage: savings,
            coordinator: self.network_id.copy_id(),
            proposal_id,
        };
        let bilateral_map = pair_amounts(&bilateral_amounts);
        let negotiation = SettlementNegotiation {
            proposal_id,
            participants,
            status: NegotiationStatus::Proposed,
            bilateral_amounts: bilateral_map,
            responses: VecMap::new(),
            created_at: now,
            expires_at: now + NETTING_TIMEOUT_SECONDS,
        };
        assert(4 * negotiation.bilateral_amounts.entry_seq().len() * negotiation.bilateral_amounts.entry_seq().len()
            <= usize::MAX) by (nonlinear_arith)
            requires
                negotiation.bilateral_amounts.entry_seq().len() <= bilateral_amounts@.len(),
                4 * bilateral_amounts@.len() * bilateral_amounts@.len() <= usize::MAX,
        ;
        self.open_negotiation(proposal_id, negotiation);
        let mut actions: Vec<SettlementAction> = Vec::new();
        actions.push(SettlementAction::Broadcast(message));
        (proposal_id, actions)
    }
}

impl SettlementMessaging {
    /// This operator's network.
    pub fn network_id(&self) -> (n: &NetworkId)
        ensures
            n@ == self.local(),
    {
        &self.network_id
    }

    /// The negotiations, one for each proposal id.
    pub fn get_active_negotiations(&self) -> (r: Vec<&SettlementNegotiation>)
        ensures
            r@.len() == self.negotiations().dom().len(),
            forall|i: int| 0 <= i < r@.len() ==> self.negotiations().contains_value(*#[trigger] r@[i]),
            forall|k: Seq<u8>|
                self.negotiations().contains_key(k) ==> exists|i: int|
                    0 <= i < r@.len() && *#[trigger] r@[i] == self.negotiations()[k],
    {
        let entries = self.active_negotiations.entries();
        let n = self.active_negotiations.len();
        let mut r: Vec<&SettlementNegotiation> = Vec::new();
        let mut i: usize = 0;
        while i < entries.len()
            invariant
                i <= entries@.len(),
                n == entries@.len(),
                r@.len() == i,
                forall|j: int| 0 <= j < i ==> *#[trigger] r@[j] == entries@[j].1,
            decreases entries@.len() - i,
        {
            r.push(&entries[i].1);
            i = i + 1;
        }
        proof {
            assert forall|j: int| 0 <= j < r@.len() implies self.negotiations().contains_value(*#[trigger] r@[j]) by {
                let k = entries@[j].0@;
                assert(self.active_negotiations@.contains_key(k));
                assert(self.negotiations()[k] == *r@[j]);
            }
            assert forall|k: Seq<u8>| self.negotiations().contains_key(k) implies exists|i: int|
                0 <= i < r@.len() && *#[trigger] r@[i] == self.negotiations()[k] by {
                let i = choose|i: int| 0 <= i < entries@.len() && #[trigger] entries@[i].0@ == k;
                assert(*r@[i] == self.negotiations()[k]);
            }
        }
        r
    }

    /// The pending settlements, one for each settlement id.
    pub fn get_pending_settlements(&self) -> (r: Vec<&PendingSettlement>)
        ensures
            r@.len() == self.pending().dom().len(),
            forall|i: int| 0 <= i < r@.len() ==> self.pending().contains_value(*#[trigger] r@[i]),
            forall|k: Seq<u8>|
                self.pending().contains_key(k) ==> exists|i: int| 0 <= i < r@.len() && *#[trigger] r@[i] == self.pending()[k],
    {
        let entries = self.pending_settlements.entries();
        let n = self.pending_settlements.len();
        let mut r: Vec<&PendingSettlement> = Vec::new();
        let mut i: usize = 0;
        while i < entries.len()
            invariant
                i <= entries@.len(),
                n == entries@.len(),
                r@.len() == i,
                forall|j: int| 0 <= j < i ==> *#[trigger] r@[j] == entries@[j].1,
            decreases entries@.len() - i,
        {
            r.push(&entries[i].1);
            i = i + 1;
        }
        proof {
            assert forall|j: int| 0 <= j < r@.len() implies self.pending().contains_value(*#[trigger] r@[j]) by {
                let k = entries@[j].0@;
                assert(self.pending_settlements@.contains_key(k));
                assert(self.pending()[k] == *r@[j]);
            }
            assert forall|k: Seq<u8>| self.pending().contains_key(k) implies exists|i: int|
                0 <= i < r@.len() && *#[trigger] r@[i] == self.pending()[k] by {
                let i = choose|i: int| 0 <= i < entries@.len() && #[trigger] entries@[i].0@ == k;
                assert(*r@[i] == self.pending()[k]);
            }
        }
        r
    }

    /// The completed settlements, in order of completion.
    pub fn get_completed_settlements(&self) -> (r: &Vec<CompletedSettlement>)
        ensures
            r@ == self.completed(),
    {
        &self.completed_settlements
    }
}

impl SettlementMessaging {
    /// Handles a settlement message now: see `handle_settlement_message_at`,
    /// with the time read from the clock.
    pub fn handle_settlement_message(&mut self, message: SettlementMessage) -> (r: Result<Vec<SettlementAction>>)
        ensures
            exists|now: u64| message_handled(*old(self), *final(self), message, now, r),
    {
        let now = now_seconds();
        self.handle_settlement_message_at(message, now)
    }

    /// Proposes a bilateral settlement now, with a random nonce: see
    /// `initiate_settlement_at`.
    pub fn initiate_settlement(
        &mut self,
        debtor_network: NetworkId,
        amount_cents: u64,
        currency: String,
        period_start: u64,
        period_end: u64,
        cdr_batch_hash: Blake2bHash,
    ) -> (r: Option<(Blake2bHash, Vec<SettlementAction>)>)
        ensures
            r is None ==> *final(self) == *old(self),
            r matches Some(x) ==> {
                &&& x.1@.len() == 1
                &&& x.1@[0] matches SettlementAction::Broadcast(SettlementMessage::InitiateSettlement { creditor_network: c, debtor_network: d, amount_cents: a, currency: cur, period_start: ps, period_end: pe, cdr_batch_hash: h, nonce }) && c@ == old(self).local() && d@ == debtor_network@ && a == amount_cents && cur@ == currency@ && ps == period_start && pe == period_end && h == cdr_batch_hash && x.0@ == sha256( vstd::utf8::encode_utf8( initiation_debug( old(self).local(), debtor_network@, amount_cents, currency@, period_start, period_end, cdr_batch_hash@, nonce, ), ) )
                &&& final(self).negotiations() == old(self).negotiations().insert(x.0@, final(self).negotiations()[x.0@])
                &&& opened_negotiation( final(self).negotiations()[x.0@], x.0, seq![old(self).local(), debtor_network@], Map::empty(), final(self).negotiations()[x.0@].created_at, (final(self).negotiations()[x.0@].created_at + NEGOTIATION_TIMEOUT_SECONDS) as u64 )
                &&& final(self).pending() == old(self).pending()
                &&& final(self).completed() == old(self).completed()
                &&& same_config(*old(self), *final(self))
            },
    {
        let nonce = match random_u64() {
            Some(n) => n,
            None => {
                return None;
            },
        };
        let now = now_seconds();
        Some(self.initiate_settlement_at(debtor_network, amount_cents, currency, period_start, period_end, cdr_batch_hash, nonce, now))
    }

    /// Proposes netting now, with a random nonce: see
    /// `propose_triangular_netting_at`.
    pub fn propose_triangular_netting(&mut self, participants: Vec<NetworkId>, bilateral_amounts: Vec<(NetworkId, NetworkId, u64)>) -> (r: Option<(Blake2bHash, Vec<SettlementAction>)>)
        requires
            gross(flows_view(bilateral_amounts@)) <= i64::MAX,
            4 * bilateral_amounts@.len() * bilateral_amounts@.len() <= usize::MAX,
            gross(flows_view(bilateral_amounts@)) != 0 ==> (gross(flows_view(bilateral_amounts@)) - abs_total(
                flows_view(bilateral_amounts@),
                first_seen(flows_view(bilateral_amounts@)),
            ) / 2) * 100 <= u64::MAX,
        ensures
            r is None ==> *final(self) == *old(self),
            r matches Some(x) ==> {
                &&& x.1@.len() == 1
                &&& x.1@[0] matches SettlementAction::Broadcast(SettlementMessage::TriangularNettingProposal { participants: p, bilateral_amounts: b, net_settlements: net, savings_percentage: sp, coordinator: c, proposal_id: id }) && ids_view(p@) == ids_view(participants@) && flows_view(b@) == flows_view(bilateral_amounts@) && positions_view(net@) == net_positions(flows_view(bilateral_amounts@)) && sp == savings_percentage( gross(flows_view(bilateral_amounts@)) as int, abs_total(flows_view(bilateral_amounts@), first_seen(flows_view(bilateral_amounts@))) ) && c@ == old(self).local() && id == x.0
                &&& final(self).negotiations() == old(self).negotiations().insert(x.0@, final(self).negotiations()[x.0@])
                &&& opened_negotiation( final(self).negotiations()[x.0@], x.0, ids_view(participants@), pair_map(flows_view(bilateral_amounts@)), final(self).negotiations()[x.0@].created_at, (final(self).negotiations()[x.0@].created_at + NETTING_TIMEOUT_SECONDS) as u64 )
                &&& final(self).pending() == old(self).pending()
                &&& final(self).completed() == old(self).completed()
                &&& same_config(*old(self), *final(self))
            },
    {
        let now = now_seconds();
        let nonce = match random_u32() {
            Some(n) => n,
            None => {
                return None;
            },
        };
        Some(self.propose_triangular_netting_at(participants, bilateral_amounts, now, nonce))
    }
}

/// An operator's net amount in a netting proposal is that of the first
/// position listing it, and 0 when none does.
pub proof fn law_first_amount(s: Seq<(NetworkIdView, int)>, x: NetworkIdView)
    ensures
        (forall|j: int| 0 <= j < s.len() ==> s[j].0 != x) ==> first_amount(s, x) == 0,
        forall|i: int|
            0 <= i < s.len() && s[i].0 == x && (forall|j: int| 0 <= j < i ==> s[j].0 != x) ==> first_amount(s, x)
                == s[i].1,
    decreases s.len(),
{
    if s.len() > 0 {
        law_first_amount(s.drop_first(), x);
        assert forall|i: int|
            0 <= i < s.len() && s[i].0 == x && (forall|j: int| 0 <= j < i ==> s[j].0 != x) implies first_amount(s, x)
                == s[i].1 by {
            if i > 0 {
                assert(s[0].0 != x);
                assert(s.drop_first()[i - 1] == s[i]);
                assert forall|j: int| 0 <= j < i - 1 implies s.drop_first()[j].0 != x by {
                    assert(s.drop_first()[j] == s[j + 1]);
                }
            }
        }
        if forall|j: int| 0 <= j < s.len() ==> s[j].0 != x {
            assert(s[0].0 != x);
            assert forall|j: int| 0 <= j < s.drop_first().len() implies s.drop_first()[j].0 != x by {
                assert(s.drop_first()[j] == s[j + 1]);
            }
        }
    }
}

/// An operator named in a netting proposal answers it with one agreement
/// for that proposal, never a refusal. It agrees outright only when the
/// netting saves at least 30% and its own net amount is at most EUR 10000
/// (1000000 cents) either way; when the saving is smaller, or its net
/// amount larger in either direction, it agrees only on conditions. An
/// operator not named answers nothing.
pub proof fn law_netting_answer(
    s: SettlementMessaging,
    participants: Seq<NetworkIdView>,
    net: Seq<(NetworkIdView, int)>,
    savings_percentage: u32,
    proposal: Blake2bHash,
    a: Seq<SettlementAction>,
)
    requires
        netting_proposal_answered(s, participants, net, savings_percentage, proposal, a),
    ensures
        !participants.contains(s.local()) ==> a.len() == 0,
        participants.contains(s.local()) ==> {
            let ours = first_amount(net, s.local());
            &&& a.len() == 1
            &&& a[0] matches SettlementAction::Broadcast(SettlementMessage::NettingAgreement { proposal_id, agreement_type, .. })
                && proposal_id == proposal && {
                &&& agreement_type is Agree ==> savings_percentage >= 30
                &&& agreement_type is Agree ==> -1000000 <= ours && ours <= 1000000
                &&& savings_percentage < 30 ==> agreement_type is ConditionalAgree
                &&& ours > 1000000 ==> agreement_type is ConditionalAgree
                &&& ours < -1000000 ==> agreement_type is ConditionalAgree
                &&& (savings_percentage >= 30 && -1000000 <= ours && ours <= 1000000) ==> agreement_type is Agree
                &&& !(agreement_type is Disagree)
            }
        },
{
}

/// The operator owing a bilateral settlement accepts it exactly when the
/// amount is at most its auto-accept threshold, and otherwise asks for
/// changes; a larger amount is never accepted where a smaller one is not.
pub proof fn law_initiation_answer(amount: u64, smaller: u64, threshold: u64)
    ensures
        initiation_answer(amount, threshold) is Accept <==> amount <= threshold,
        !(initiation_answer(amount, threshold) is Accept) ==> initiation_answer(amount, threshold) is RequestModification,
        smaller <= amount && initiation_answer(amount, threshold) is Accept ==> initiation_answer(smaller, threshold) is Accept,
{
}

/// A response to a bilateral proposal decides its negotiation's status and
/// nothing else: only an acceptance makes it accepted, only a rejection
/// rejects it, a counter-offer makes it counter-proposed and a request for
/// changes puts it under review. The other negotiations, the settlements
/// and the completed ones stay as they were.
pub proof fn law_response_decides_status(
    s0: SettlementMessaging,
    s1: SettlementMessaging,
    proposal: Seq<u8>,
    response: SettlementResponseType,
)
    requires
        response_handled(s0, s1, proposal, response),
        s0.negotiations().contains_key(proposal),
    ensures
        s1.negotiations().contains_key(proposal),
        (s1.negotiations()[proposal].status is Accepted) <==> (response is Accept),
        (s1.negotiations()[proposal].status is Rejected) <==> (response is Reject),
        (s1.negotiations()[proposal].status is CounterProposed) <==> (response is CounterOffer),
        (s1.negotiations()[proposal].status is UnderReview) <==> (response is RequestModification),
        s1.negotiations()[proposal].participants == s0.negotiations()[proposal].participants,
        s1.negotiations()[proposal].bilateral_amounts == s0.negotiations()[proposal].bilateral_amounts,
        s1.negotiations().remove(proposal) == s0.negotiations().remove(proposal),
        s1.pending() == s0.pending(),
        s1.completed() == s0.completed(),
{
    assert(s1.negotiations().remove(proposal) =~= s0.negotiations().remove(proposal));
}

/// A payment report for a pending settlement: only a confirmed payment
/// completes it, taking it out of the pending settlements and adding one
/// completion record for it at the report's time; a failed payment marks it
/// failed, and a payment sent or received marks it in progress, keeping it
/// pending.
pub proof fn law_payment_report(
    s0: SettlementMessaging,
    s1: SettlementMessaging,
    id: Seq<u8>,
    c: ConfirmationType,
    timestamp: u64,
)
    requires
        confirmation_handled(s0, s1, id, c, timestamp),
        s0.pending().contains_key(id),
    ensures
        (c is PaymentConfirmed) <==> !s1.pending().contains_key(id),
        (c is PaymentConfirmed) <==> s1.completed().len() == s0.completed().len() + 1,
        !(c is PaymentConfirmed) ==> s1.completed() == s0.completed(),
        c is PaymentConfirmed ==> s1.completed().last().settlement_id@ == id && s1.completed().last().completion_time
            == timestamp,
        c is PaymentFailed ==> s1.pending()[id].status is Failed,
        (c is PaymentSent || c is PaymentReceived) ==> s1.pending()[id].status is InProgress,
        !(c is PaymentConfirmed) ==> s1.pending()[id].amount == s0.pending()[id].amount,
        s1.negotiations() == s0.negotiations(),
{
}

/// An agreement to a netting proposal: a refusal rejects the negotiation
/// and sends nothing; a conditional agreement changes nothing and sends
/// nothing; an agreement that completes the answers (with those already
/// given, one from every participant) accepts the negotiation and settles
/// its netting, while an earlier one changes nothing and sends nothing.
/// Pending and completed settlements stay as they were.
pub proof fn law_netting_agreement(
    s0: SettlementMessaging,
    s1: SettlementMessaging,
    id: Seq<u8>,
    t: NettingAgreementType,
    now: u64,
    r: Result<Vec<SettlementAction>>,
)
    requires
        agreement_handled(s0, s1, id, t, now, r),
        s0.negotiations().contains_key(id),
    ensures
        s1.pending() == s0.pending(),
        s1.completed() == s0.completed(),
        t is Disagree ==> s1.negotiations()[id].status is Rejected && (r matches Ok(a) && a@.len() == 0),
        t is ConditionalAgree ==> s1.negotiations() == s0.negotiations() && (r matches Ok(a) && a@.len() == 0),
        (t is Agree && s0.negotiations()[id].responses.entry_seq().len() + 1 < s0.negotiations()[id].participants@.len())
            ==> s1.negotiations() == s0.negotiations() && (r matches Ok(a) && a@.len() == 0),
        (t is Agree && s0.negotiations()[id].responses.entry_seq().len() + 1 >= s0.negotiations()[id].participants@.len())
            ==> s1.negotiations()[id].status is Accepted && (r matches Ok(a) && netting_actions(
            pair_flows(s0.negotiations()[id].bilateral_amounts.entry_seq()),
            id,
            now,
            a@,
        )),
        s1.negotiations()[id].status is Accepted ==> t is Agree || s0.negotiations()[id].status is Accepted,
{
}

} // verus!
