//! An operator's pipeline of call detail records: batches announced with
//! proofs, settlements proposed between network pairs and accepted, and the
//! pipeline's statistics.
use vstd::prelude::*;
use crate::clock::now_seconds;
use crate::entropy::random_u64;
use crate::collections::VecMap;
use crate::encoding::{decimal_text, le_bytes, push_decimal_text, u32_to_le, u64_to_le};
use crate::network::operator_messages::{pair_hash, pair_text, proposal_hash, proposal_text, Broadcast, OperatorMessage};
use crate::primitives::primitives::{hash_data, sha256, Blake2bHash, NetworkId, NetworkIdView};
use crate::blockchain::block::{SettlementTransaction, Transaction, TransactionData};
use crate::primitives::text::{network_debug, network_debug_text, text_bytes};

verus! {

/// Settings of a pipeline.
pub struct PipelineConfig {
    pub keys_dir: String,
    pub batch_size: usize,
    pub settlement_threshold_cents: u64,
    pub auto_accept_threshold_cents: u64,
    pub enable_triangular_netting: bool,
}

/// One call detail record: usage and the rates it is charged at.
pub struct CDRRecord {
    pub record_id: String,
    pub call_minutes: u64,
    pub data_mb: u64,
    pub sms_count: u64,
    pub call_rate_cents: u64,
    pub data_rate_cents: u64,
    pub sms_rate_cents: u64,
    pub timestamp: u64,
}

/// Records between a home and a visited network over a period.
pub struct CDRBatch {
    pub batch_id: Blake2bHash,
    pub home_network: NetworkId,
    pub visited_network: NetworkId,
    pub records: Vec<CDRRecord>,
    pub period_start: u64,
    pub period_end: u64,
    pub total_charges_cents: u64,
}

/// Stage of a settlement proposal.
pub enum SettlementStatus {
    Proposed,
    Accepted,
    Rejected(String),
    Finalized,
}

/// A settlement that a creditor proposes to a debtor, with its proofs.
pub struct SettlementProposal {
    pub proposal_id: Blake2bHash,
    pub creditor: NetworkId,
    pub debtor: NetworkId,
    pub amount_cents: u64,
    pub period_hash: Blake2bHash,
    pub cdr_batch_proofs: Vec<Vec<u8>>,
    pub proposed_at: u64,
    pub status: SettlementStatus,
}

/// Counts kept by a pipeline.
pub struct PipelineStats {
    pub cdr_batches_processed: u64,
    pub zk_proofs_generated: u64,
    pub settlements_proposed: u64,
    pub settlements_finalized: u64,
    pub total_amount_settled_cents: u64,
}

/// Statistics with every count zero.
pub open spec fn zero_stats() -> PipelineStats {
    PipelineStats {
        cdr_batches_processed: 0,
        zk_proofs_generated: 0,
        settlements_proposed: 0,
        settlements_finalized: 0,
        total_amount_settled_cents: 0,
    }
}

impl Default for PipelineStats {
    fn default() -> (s: Self)
        ensures
            s == zero_stats(),
    {
        PipelineStats {
            cdr_batches_processed: 0,
            zk_proofs_generated: 0,
            settlements_proposed: 0,
            settlements_finalized: 0,
            total_amount_settled_cents: 0,
        }
    }
}

/// A cycle of three operators whose obligations could be netted.
pub struct TriangularNetting {
    pub operator_a: NetworkId,
    pub operator_b: NetworkId,
    pub operator_c: NetworkId,
    pub amount_ab: u64,
    pub amount_bc: u64,
    pub amount_ca: u64,
    pub net_savings: u64,
}

/// Commitments that a batch's privacy proof is checked against.
pub struct BatchCommitments {
    pub batch_commitment: Blake2bHash,
    pub record_count_commitment: Blake2bHash,
    pub amount_commitment: Blake2bHash,
    pub network_authorization_hash: Blake2bHash,
}

/// Arguments of a proof that a batch's charges follow from its usage and
/// rates.
pub struct CDRProofInputs {
    pub call_minutes: u64,
    pub data_mb: u64,
    pub sms_count: u64,
    pub call_rate_cents: u64,
    pub data_rate_cents: u64,
    pub sms_rate_cents: u64,
    pub total_charges: u64,
    pub period_hash: u64,
    pub network_pair_hash: u64,
}

/// Commitments to a batch: its id, the hashes of its record count and total
/// (little-endian), and of its pair of networks.
pub fn batch_commitments(batch_id: Blake2bHash, network_pair: &(NetworkId, NetworkId), record_count: u32, total_charges: u64) -> (c:
    BatchCommitments)
    ensures
        c.batch_commitment == batch_id,
        c.record_count_commitment@ == sha256(le_bytes(record_count as nat).subrange(0, 4)),
        c.amount_commitment@ == sha256(le_bytes(total_charges as nat)),
        c.network_authorization_hash@ == sha256(
            vstd::utf8::encode_utf8(pair_text(network_pair.0@, network_pair.1@)),
        ),
{
    BatchCommitments {
        batch_commitment: batch_id,
        record_count_commitment: hash_data(u32_to_le(record_count).as_slice()),
        amount_commitment: hash_data(u64_to_le(total_charges).as_slice()),
        network_authorization_hash: pair_hash(&network_pair.0, &network_pair.1),
    }
}

/// Sum of the totals of the batches between `home` and `visited`.
pub open spec fn pair_total(batches: Seq<CDRBatch>, home: NetworkIdView, visited: NetworkIdView) -> int
    decreases batches.len(),
{
    if batches.len() == 0 {
        0
    } else {
        pair_total(batches.drop_last(), home, visited) + if batches.last().home_network@ == home
            && batches.last().visited_network@ == visited {
            batches.last().total_charges_cents as int
        } else {
            0
        }
    }
}

/// Whether a batch is kept as announced by another operator: its id, pair
/// of networks and total, with no records and no period.
pub open spec fn announced_batch(b: CDRBatch, id: Blake2bHash, home: NetworkIdView, visited: NetworkIdView, total: u64) -> bool {
    &&& b.batch_id == id
    &&& b.home_network@ == home
    &&& b.visited_network@ == visited
    &&& b.records@.len() == 0
    &&& b.period_start == 0
    &&& b.period_end == 0
    &&& b.total_charges_cents == total
}

/// The batches, in the order the pipeline holds them.
pub open spec fn batch_values(entries: Seq<(Blake2bHash, CDRBatch)>) -> Seq<CDRBatch> {
    entries.map_values(|e: (Blake2bHash, CDRBatch)| e.1)
}

/// An operator's pipeline: the batches awaiting settlement, the settlement
/// proposals by id, and its statistics.
pub struct CDRPipeline {
    config: PipelineConfig,
    network_id: NetworkId,
    pending_cdr_batches: VecMap<Blake2bHash, CDRBatch>,
    settlement_proposals: VecMap<Blake2bHash, SettlementProposal>,
    stats: PipelineStats,
}

impl CDRPipeline {
    /// This operator's network.
    pub closed spec fn local(&self) -> NetworkIdView {
        self.network_id@
    }

    pub closed spec fn settings(&self) -> PipelineConfig {
        self.config
    }

    /// Batches awaiting settlement, by id.
    pub closed spec fn pending(&self) -> Map<Seq<u8>, CDRBatch> {
        self.pending_cdr_batches@
    }

    /// The batches awaiting settlement, in the order they are held.
    pub closed spec fn pending_batches(&self) -> Seq<CDRBatch> {
        batch_values(self.pending_cdr_batches.entry_seq())
    }

    /// Settlement proposals, by id.
    pub closed spec fn proposals(&self) -> Map<Seq<u8>, SettlementProposal> {
        self.settlement_proposals@
    }

    pub closed spec fn statistics(&self) -> PipelineStats {
        self.stats
    }

    /// A pipeline with no batch, proposal or count yet.
    pub fn new(network_id: NetworkId, config: PipelineConfig) -> (p: Self)
        ensures
            p.local() == network_id@,
            p.settings() == config,
            p.pending() == Map::<Seq<u8>, CDRBatch>::empty(),
            p.proposals() == Map::<Seq<u8>, SettlementProposal>::empty(),
            p.statistics() == zero_stats(),
    {
        CDRPipeline {
            config,
            network_id,
            pending_cdr_batches: VecMap::new(),
            settlement_proposals: VecMap::new(),
            stats: PipelineStats::default(),
        }
    }

    /// The pipeline's statistics.
    pub fn get_stats(&self) -> (s: &PipelineStats)
        ensures
            *s == self.statistics(),
    {
        &self.stats
    }

    /// A batch announced by another operator: when its proof checked out, it
    /// is kept, with no records, period or proofs of its own, for settlement.
    pub fn process_cdr_batch_notification(
        &mut self,
        batch_id: Blake2bHash,
        network_pair: (NetworkId, NetworkId),
        total_charges: u64,
        proof_valid: bool,
    )
        requires
            old(self).statistics().cdr_batches_processed < u64::MAX,
        ensures
            final(self).local() == old(self).local(),
            final(self).settings() == old(self).settings(),
            final(self).proposals() == old(self).proposals(),
            !proof_valid ==> final(self).pending() == old(self).pending() && final(self).statistics() == old(self).statistics(),
            proof_valid ==> final(self).pending() == old(self).pending().insert(batch_id@, final(self).pending()[batch_id@])
                && announced_batch(final(self).pending()[batch_id@], batch_id, network_pair.0@, network_pair.1@, total_charges)
                && final(self).statistics() == (PipelineStats {
                cdr_batches_processed: (old(self).statistics().cdr_batches_processed + 1) as u64,
                ..old(self).statistics()
            }),
    {
        if proof_valid {
            let batch = CDRBatch {
                batch_id,
                home_network: network_pair.0,
                visited_network: network_pair.1,
                records: Vec::new(),
                period_start: 0,
                period_end: 0,
                total_charges_cents: total_charges,
            };
            self.pending_cdr_batches.insert(batch_id, batch);
            self.stats.cdr_batches_processed = self.stats.cdr_batches_processed + 1;
        }
    }
}

/// A proposal with another status.
pub open spec fn proposal_with_status(p: SettlementProposal, status: SettlementStatus) -> SettlementProposal {
    SettlementProposal { status, ..p }
}

/// Whether `t` is the chain transaction recording a finalized proposal: from
/// the digest of the creditor's `Debug` text to that of the debtor's, worth
/// the amount, with a fee of 100, valid from height 0, placeholder
/// signature bytes, and a settlement in euros for the month between the
/// two networks' `Debug` texts.
pub open spec fn settlement_record(p: SettlementProposal, t: Transaction) -> bool {
    &&& t.sender@ == sha256(vstd::utf8::encode_utf8(network_debug(p.creditor@)))
    &&& t.recipient@ == sha256(vstd::utf8::encode_utf8(network_debug(p.debtor@)))
    &&& t.value == p.amount_cents
    &&& t.fee == 100
    &&& t.validity_start_height == 0
    &&& t.signature@ == Seq::new(64, |i: int| 0u8)
    &&& t.signature_proof@ == Seq::new(32, |i: int| 0u8)
    &&& t.data matches TransactionData::Settlement(st)
    &&& st.creditor_network@ == network_debug(p.creditor@)
    &&& st.debtor_network@ == network_debug(p.debtor@)
    &&& st.amount == p.amount_cents
    &&& st.currency@ == "EUR"@
    &&& st.period@ == "monthly"@
}

/// The chain transaction recording a finalized proposal.
pub fn settlement_transaction(p: &SettlementProposal) -> (t: Transaction)
    ensures
        settlement_record(*p, t),
{
    let creditor_network = network_debug_text(&p.creditor);
    let debtor_network = network_debug_text(&p.debtor);
    let sender = hash_data(text_bytes(&creditor_network).as_slice());
    let recipient = hash_data(text_bytes(&debtor_network).as_slice());
    let signature = vec![0u8; 64];
    let signature_proof = vec![0u8; 32];
    assert(signature@ =~= Seq::new(64, |i: int| 0u8));
    assert(signature_proof@ =~= Seq::new(32, |i: int| 0u8));
    Transaction {
        sender,
        recipient,
        value: p.amount_cents,
        fee: 100,
        validity_start_height: 0,
        data: TransactionData::Settlement(
            SettlementTransaction {
                creditor_network,
                debtor_network,
                amount: p.amount_cents,
                currency: "EUR".to_string(),
                period: "monthly".to_string(),
            },
        ),
        signature,
        signature_proof,
    }
}

/// Statistics after a settlement of `amount` is finalized.
pub open spec fn settled(stats: PipelineStats, amount: u64) -> PipelineStats {
    PipelineStats {
        settlements_finalized: (stats.settlements_finalized + 1) as u64,
        total_amount_settled_cents: (stats.total_amount_settled_cents + amount) as u64,
        ..stats
    }
}

/// Whether some batch is between `home` and `visited`.
pub open spec fn has_pair(batches: Seq<CDRBatch>, home: NetworkIdView, visited: NetworkIdView) -> bool {
    exists|j: int| 0 <= j < batches.len() && batches[j].home_network@ == home && batches[j].visited_network@ == visited
}

proof fn lemma_pair_total_prefix(batches: Seq<CDRBatch>, k: int, home: NetworkIdView, visited: NetworkIdView)
    requires
        0 <= k <= batches.len(),
    ensures
        0 <= pair_total(batches.subrange(0, k), home, visited) <= pair_total(batches, home, visited),
    decreases batches.len() - k,
{
    if k < batches.len() {
        lemma_pair_total_prefix(batches, k + 1, home, visited);
        assert(batches.subrange(0, k + 1).drop_last() =~= batches.subrange(0, k));
        lemma_pair_total_nonneg(batches.subrange(0, k), home, visited);
    } else {
        assert(batches.subrange(0, k) =~= batches);
        lemma_pair_total_nonneg(batches, home, visited);
    }
}

proof fn lemma_pair_total_nonneg(batches: Seq<CDRBatch>, home: NetworkIdView, visited: NetworkIdView)
    ensures
        0 <= pair_total(batches, home, visited),
    decreases batches.len(),
{
    if batches.len() > 0 {
        lemma_pair_total_nonneg(batches.drop_last(), home, visited);
    }
}

/// Text whose hash identifies a sample batch: `batch_`, the two networks'
/// `Debug` texts and the time, separated by underscores.
pub open spec fn sample_batch_text(home: NetworkIdView, visited: NetworkIdView, now: u64) -> Seq<char> {
    "batch_"@ + network_debug(home) + "_"@ + network_debug(visited) + "_"@ + decimal_text(now as nat)
}

/// Seconds in a day.
pub const DAY_SECONDS: u64 = 86400;

impl CDRPipeline {
    /// A settlement proposed to this operator as debtor is accepted at once
    /// when it is within the auto-accept threshold: the acceptance, under the
    /// hash of the creditor, debtor and amount and an all-zero signature, is
    /// to be broadcast on `settlement`, and the settlement counts as
    /// finalized. Other proposals change nothing.
    pub fn process_settlement_proposal(&mut self, creditor: &NetworkId, debtor: &NetworkId, amount_cents: u64) -> (r: Vec<
        Broadcast,
    >)
        requires
            old(self).statistics().settlements_finalized < u64::MAX,
            old(self).statistics().total_amount_settled_cents + amount_cents <= u64::MAX,
        ensures
            final(self).local() == old(self).local(),
            final(self).settings() == old(self).settings(),
            final(self).pending() == old(self).pending(),
            final(self).pending_batches() == old(self).pending_batches(),
            final(self).proposals() == old(self).proposals(),
            if debtor@ == old(self).local() && amount_cents <= old(self).settings().auto_accept_threshold_cents {
                &&& final(self).statistics() == settled(old(self).statistics(), amount_cents)
                &&& r@.len() == 1
                &&& r@[0].topic@ == "settlement"@
                &&& r@[0].message matches OperatorMessage::SettlementAccept { proposal_hash, signature } && proposal_hash@
                    == sha256(vstd::utf8::encode_utf8(proposal_text(creditor@, debtor@, amount_cents))) && signature@
                    == Seq::new(64, |i: int| 0u8)
            } else {
                final(self).statistics() == old(self).statistics() && r@.len() == 0
            },
    {
        let mut out: Vec<Broadcast> = Vec::new();
        if *debtor == self.network_id && amount_cents <= self.config.auto_accept_threshold_cents {
            let proposal_id = proposal_hash(creditor, debtor, amount_cents);
            let mut signature: Vec<u8> = Vec::new();
            while signature.len() < 64
                invariant
                    signature@.len() <= 64,
                    forall|i: int| 0 <= i < signature@.len() ==> signature@[i] == 0u8,
                decreases 64 - signature@.len(),
            {
                signature.push(0u8);
            }
            assert(signature@ =~= Seq::new(64, |i: int| 0u8));
            out.push(
                Broadcast {
                    topic: "settlement".to_string(),
                    message: OperatorMessage::SettlementAccept { proposal_hash: proposal_id, signature },
                },
            );
            self.stats.settlements_finalized = self.stats.settlements_finalized + 1;
            self.stats.total_amount_settled_cents = self.stats.total_amount_settled_cents + amount_cents;
        }
        out
    }

    /// Finalizes one of this operator's proposals: it is marked finalized, the
    /// settlement counts as finalized with its amount, and the chain
    /// transaction recording it is returned. Unknown proposals change nothing.
    pub fn finalize_settlement(&mut self, proposal_id: &Blake2bHash) -> (r: Option<Transaction>)
        requires
            old(self).proposals().contains_key(proposal_id@) ==> old(self).statistics().settlements_finalized < u64::MAX
                && old(self).statistics().total_amount_settled_cents + old(self).proposals()[proposal_id@].amount_cents
                <= u64::MAX,
        ensures
            final(self).local() == old(self).local(),
            final(self).settings() == old(self).settings(),
            final(self).pending() == old(self).pending(),
            final(self).pending_batches() == old(self).pending_batches(),
            old(self).proposals().contains_key(proposal_id@) ==> {
                &&& final(self).proposals() == old(self).proposals().insert(
                    proposal_id@,
                    proposal_with_status(old(self).proposals()[proposal_id@], SettlementStatus::Finalized),
                )
                &&& final(self).statistics() == settled(
                    old(self).statistics(),
                    old(self).proposals()[proposal_id@].amount_cents,
                )
                &&& r matches Some(t) && settlement_record(old(self).proposals()[proposal_id@], t)
            },
            !old(self).proposals().contains_key(proposal_id@) ==> r is None && final(self).proposals()
                == old(self).proposals() && final(self).statistics() == old(self).statistics(),
    {
        match self.settlement_proposals.remove(proposal_id) {
            Some(p) => {
                let mut p = p;
                let transaction = settlement_transaction(&p);
                let amount = p.amount_cents;
                p.status = SettlementStatus::Finalized;
                self.settlement_proposals.insert(*proposal_id, p);
                assert(self.settlement_proposals@ =~= old(self).proposals().insert(
                    proposal_id@,
                    proposal_with_status(old(self).proposals()[proposal_id@], SettlementStatus::Finalized),
                ));
                self.stats.settlements_finalized = self.stats.settlements_finalized + 1;
                self.stats.total_amount_settled_cents = self.stats.total_amount_settled_cents + amount;
                Some(transaction)
            },
            None => None,
        }
    }

    /// An acceptance of one of this operator's proposals: the proposal is
    /// accepted and then finalized (see `finalize_settlement`), returning the
    /// transaction recording it. Acceptances of unknown proposals change
    /// nothing.
    pub fn process_settlement_acceptance(&mut self, proposal_id: &Blake2bHash) -> (r: Option<Transaction>)
        requires
            old(self).proposals().contains_key(proposal_id@) ==> old(self).statistics().settlements_finalized < u64::MAX
                && old(self).statistics().total_amount_settled_cents + old(self).proposals()[proposal_id@].amount_cents
                <= u64::MAX,
        ensures
            final(self).local() == old(self).local(),
            final(self).settings() == old(self).settings(),
            final(self).pending() == old(self).pending(),
            final(self).pending_batches() == old(self).pending_batches(),
            old(self).proposals().contains_key(proposal_id@) ==> {
                &&& final(self).proposals() == old(self).proposals().insert(
                    proposal_id@,
                    proposal_with_status(old(self).proposals()[proposal_id@], SettlementStatus::Finalized),
                )
                &&& final(self).statistics() == settled(
                    old(self).statistics(),
                    old(self).proposals()[proposal_id@].amount_cents,
                )
                &&& r matches Some(t) && settlement_record(old(self).proposals()[proposal_id@], t)
            },
            !old(self).proposals().contains_key(proposal_id@) ==> r is None && final(self).proposals()
                == old(self).proposals() && final(self).statistics() == old(self).statistics(),
    {
        match self.settlement_proposals.remove(proposal_id) {
            Some(p) => {
                let mut p = p;
                p.status = SettlementStatus::Accepted;
                self.settlement_proposals.insert(*proposal_id, p);
                assert(self.settlement_proposals@ =~= old(self).proposals().insert(
                    proposal_id@,
                    proposal_with_status(old(self).proposals()[proposal_id@], SettlementStatus::Accepted),
                ));
                self.finalize_settlement(proposal_id)
            },
            None => None,
        }
    }

    /// Pairs of networks whose pending batches total at least the settlement
    /// threshold, each once, with that total.
    pub fn settlement_candidates(&self) -> (r: Vec<(NetworkId, NetworkId, u64)>)
        requires
            forall|h: NetworkIdView, v: NetworkIdView| pair_total(self.pending_batches(), h, v) <= u64::MAX,
        ensures
            forall|i: int|
                0 <= i < r@.len() ==> {
                    &&& has_pair(self.pending_batches(), (#[trigger] r@[i]).0@, r@[i].1@)
                    &&& r@[i].2 == pair_total(self.pending_batches(), r@[i].0@, r@[i].1@)
                    &&& r@[i].2 >= self.settings().settlement_threshold_cents
                },
            forall|h: NetworkIdView, v: NetworkIdView|
                has_pair(self.pending_batches(), h, v) && pair_total(self.pending_batches(), h, v)
                    >= self.settings().settlement_threshold_cents ==> exists|i: int|
                    0 <= i < r@.len() && (#[trigger] r@[i]).0@ == h && r@[i].1@ == v,
            forall|i: int, j: int| 0 <= i < j < r@.len() ==> ((#[trigger] r@[i]).0@, r@[i].1@) != ((#[trigger] r@[j]).0@, r@[j].1@),
    {
        let entries = self.pending_cdr_batches.entries();
        let ghost bs = batch_values(entries@);
        let mut totals: VecMap<(NetworkId, NetworkId), u64> = VecMap::new();
        assert forall|h: NetworkIdView, v: NetworkIdView| pair_total(bs, h, v) <= u64::MAX by {
            assert(pair_total(self.pending_batches(), h, v) <= u64::MAX);
        }
        let mut k: usize = 0;
        while k < entries.len()
            invariant
                k <= entries@.len(),
                bs == batch_values(entries@),
                bs == self.pending_batches(),
                forall|h: NetworkIdView, v: NetworkIdView| pair_total(bs, h, v) <= u64::MAX,
                forall|h: NetworkIdView, v: NetworkIdView| #[trigger]
                    totals@.contains_key((h, v)) <==> has_pair(bs.subrange(0, k as int), h, v),
                forall|h: NetworkIdView, v: NetworkIdView|
                    #[trigger] totals@.contains_key((h, v)) ==> totals@[(h, v)] == pair_total(bs.subrange(0, k as int), h, v),
                forall|h: NetworkIdView, v: NetworkIdView|
                    !#[trigger] totals@.contains_key((h, v)) ==> pair_total(bs.subrange(0, k as int), h, v) == 0,
            decreases entries@.len() - k,
        {
            let b = &entries[k].1;
            let ghost pre = bs.subrange(0, k as int);
            let ghost post = bs.subrange(0, k + 1);
            assert(post.drop_last() =~= pre);
            assert(post.last() == bs[k as int]);
            assert(bs[k as int] == *b);
            let key = (b.home_network.copy_id(), b.visited_network.copy_id());
            let current = match totals.get(&key) {
                Some(t) => *t,
                None => 0,
            };
            proof {
                lemma_pair_total_prefix(bs, k + 1, key.0@, key.1@);
            }
            let sum = current + b.total_charges_cents;
            let ghost before = totals@;
            totals.insert(key, sum);
            proof {
                assert forall|h: NetworkIdView, v: NetworkIdView| #[trigger]
                    totals@.contains_key((h, v)) <==> has_pair(post, h, v) by {
                    if has_pair(pre, h, v) {
                        let j = choose|j: int|
                            0 <= j < pre.len() && pre[j].home_network@ == h && pre[j].visited_network@ == v;
                        assert(post[j] == pre[j]);
                    }
                    if has_pair(post, h, v) && (h, v) != (key.0@, key.1@) {
                        let j = choose|j: int|
                            0 <= j < post.len() && post[j].home_network@ == h && post[j].visited_network@ == v;
                        assert(j < pre.len());
                        assert(pre[j] == post[j]);
                    }
                    if (h, v) == (key.0@, key.1@) {
                        assert(post[k as int].home_network@ == h);
                    }
                }
            }
            k = k + 1;
        }
        assert(bs.subrange(0, entries@.len() as int) =~= bs);
        let all = totals.entries();
        let mut r: Vec<(NetworkId, NetworkId, u64)> = Vec::new();
        let ghost picked: Seq<int> = Seq::empty();
        let mut i: usize = 0;
        while i < all.len()
            invariant
                i <= all@.len(),
                bs == self.pending_batches(),
                forall|h: NetworkIdView, v: NetworkIdView| #[trigger] totals@.contains_key((h, v)) <==> has_pair(bs, h, v),
                forall|h: NetworkIdView, v: NetworkIdView|
                    #[trigger] totals@.contains_key((h, v)) ==> totals@[(h, v)] == pair_total(bs, h, v),
                all@ == totals.entry_seq(),
                crate::collections::keys_of(all@).no_duplicates(),
                forall|j: int| 0 <= j < all@.len() ==> #[trigger] totals@.contains_key(all@[j].0@) && totals@[all@[j].0@] == all@[j].1,
                picked.len() == r@.len(),
                forall|j: int| 0 <= j < picked.len() ==> 0 <= #[trigger] picked[j] < i,
                forall|a: int, b: int| 0 <= a < b < picked.len() ==> picked[a] < picked[b],
                forall|j: int|
                    0 <= j < r@.len() ==> ((#[trigger] r@[j]).0@, r@[j].1@) == all@[picked[j]].0@ && r@[j].2 == all@[picked[j]].1,
                forall|j: int| 0 <= j < r@.len() ==> (#[trigger] r@[j]).2 >= self.config.settlement_threshold_cents,
                forall|x: int|
                    0 <= x < i && all@[x].1 >= self.config.settlement_threshold_cents ==> exists|j: int|
                        0 <= j < picked.len() && #[trigger] picked[j] == x,
            decreases all@.len() - i,
        {
            let ghost old_picked = picked;
            if all[i].1 >= self.config.settlement_threshold_cents {
                let e = (all[i].0.0.copy_id(), all[i].0.1.copy_id(), all[i].1);
                r.push(e);
                proof {
                    picked = picked.push(i as int);
                    assert(picked[picked.len() - 1] == i);
                }
            }
            proof {
                assert forall|x: int|
                    0 <= x < i + 1 && all@[x].1 >= self.config.settlement_threshold_cents implies exists|j: int|
                        0 <= j < picked.len() && #[trigger] picked[j] == x by {
                    if x < i {
                        let j = choose|j: int| 0 <= j < old_picked.len() && #[trigger] old_picked[j] == x;
                        assert(picked[j] == old_picked[j]);
                    } else {
                        assert(picked[picked.len() - 1] == x);
                    }
                }
            }
            i = i + 1;
        }
        proof {
            assert forall|j: int| 0 <= j < r@.len() implies {
                &&& has_pair(self.pending_batches(), (#[trigger] r@[j]).0@, r@[j].1@)
                &&& r@[j].2 == pair_total(self.pending_batches(), r@[j].0@, r@[j].1@)
                &&& r@[j].2 >= self.settings().settlement_threshold_cents
            } by {
                let x = picked[j];
                assert(totals@.contains_key(all@[x].0@));
                assert(totals@.contains_key((r@[j].0@, r@[j].1@)));
            }
            assert forall|a: int, b: int| 0 <= a < b < r@.len() implies ((#[trigger] r@[a]).0@, r@[a].1@) != (
            (#[trigger] r@[b]).0@, r@[b].1@) by {
                let ka = crate::collections::keys_of(all@)[picked[a]];
                let kb = crate::collections::keys_of(all@)[picked[b]];
                assert(ka == all@[picked[a]].0@);
                assert(kb == all@[picked[b]].0@);
            }
            assert forall|h: NetworkIdView, v: NetworkIdView|
                has_pair(self.pending_batches(), h, v) && pair_total(self.pending_batches(), h, v)
                    >= self.settings().settlement_threshold_cents implies exists|i: int|
                    0 <= i < r@.len() && (#[trigger] r@[i]).0@ == h && r@[i].1@ == v by {
                assert(totals@.contains_key((h, v)));
                let x = choose|x: int| 0 <= x < all@.len() && #[trigger] all@[x].0@ == (h, v);
                assert(totals@[all@[x].0@] == all@[x].1);
                let j = choose|j: int| 0 <= j < picked.len() && #[trigger] picked[j] == x;
                assert(r@[j].0@ == h && r@[j].1@ == v);
            }
        }
        r
    }
}

/// Bytes whose hash stands for the period being settled.
pub open spec fn current_period_bytes() -> Seq<u8> {
    vstd::utf8::encode_utf8("current_period"@)
}

/// Hash standing for the period being settled.
pub fn current_period_hash() -> (h: Blake2bHash)
    ensures
        h@ == sha256(current_period_bytes()),
{
    let text = "current_period".to_string();
    hash_data(text_bytes(&text).as_slice())
}

/// Whether a proposal is newly made: its id, parties, amount, period,
/// proofs and time, and still proposed.
pub open spec fn new_proposal(
    p: SettlementProposal,
    creditor: NetworkIdView,
    debtor: NetworkIdView,
    amount: u64,
    proof: Seq<u8>,
    now: u64,
) -> bool {
    &&& p.proposal_id@ == sha256(vstd::utf8::encode_utf8(proposal_text(creditor, debtor, amount)))
    &&& p.creditor@ == creditor
    &&& p.debtor@ == debtor
    &&& p.amount_cents == amount
    &&& p.period_hash@ == sha256(current_period_bytes())
    &&& p.cdr_batch_proofs@.len() == 1
    &&& p.cdr_batch_proofs@[0]@ == proof
    &&& p.proposed_at == now
    &&& p.status == SettlementStatus::Proposed
}

/// Whether `after` is `before` with the sample batch between `home` and
/// `visited` at `now` added, and `r` what announces it and what proves it.
#[verifier::opaque]
pub open spec fn sample_added(
    before: CDRPipeline,
    after: CDRPipeline,
    home: NetworkIdView,
    visited: NetworkIdView,
    now: u64,
    r: (Broadcast, CDRProofInputs),
) -> bool {
    &&& after.local() == before.local()
    &&& after.settings() == before.settings()
    &&& after.proposals() == before.proposals()
    &&& after.statistics() == before.statistics()
    &&& after.pending() == before.pending().insert( sha256(vstd::utf8::encode_utf8(sample_batch_text(home, visited, now))), after.pending()[sha256(vstd::utf8::encode_utf8(sample_batch_text(home, visited, now)))], )
    &&& ({ let b = after.pending()[sha256( vstd::utf8::encode_utf8(sample_batch_text(home, visited, now)), )]; &&& b.batch_id@ == sha256(vstd::utf8::encode_utf8(sample_batch_text(home, visited, now))) &&& b.home_network@ == home &&& b.visited_network@ == visited &&& b.records@.len() == 2 &&& b.records@[0].record_id@ == "call_001"@ && b.records@[0].call_minutes == 5 && b.records@[0].data_mb == 0 && b.records@[0].sms_count == 0 && b.records@[0].call_rate_cents == 50 && b.records@[0].data_rate_cents == 0 && b.records@[0].sms_rate_cents == 0 && b.records@[0].timestamp == now &&& b.records@[1].record_id@ == "data_001"@ && b.records@[1].call_minutes == 0 && b.records@[1].data_mb == 100 && b.records@[1].sms_count == 0 && b.records@[1].call_rate_cents == 0 && b.records@[1].data_rate_cents == 2 && b.records@[1].sms_rate_cents == 0 && b.records@[1].timestamp == now &&& b.period_start == now - DAY_SECONDS &&& b.period_end == now &&& b.total_charges_cents == 450 })
    &&& r.0.topic@ == "cdr_batches"@
    &&& r.0.message matches OperatorMessage::CDRBatchReady { batch_id, network_pair, record_count, total_amount } && batch_id@ == sha256(vstd::utf8::encode_utf8(sample_batch_text(home, visited, now))) && network_pair.0@ == home && network_pair.1@ == visited && record_count == 2 && total_amount == 450
    &&& r.1 == (CDRProofInputs { call_minutes: 5, data_mb: 100, sms_count: 0, call_rate_cents: 50, data_rate_cents: 2, sms_rate_cents: 10, total_charges: 450, period_hash: 12345, network_pair_hash: 67890, })
}

impl CDRPipeline {
    /// Proposes settling `amount_cents` owed by `debtor` to `creditor`, with
    /// the settlement's proof, at `now`: the proposal is kept under the hash
    /// of the parties and amount, and announced on `settlement` with the
    /// random `nonce`; it counts as proposed and its proof as generated.
    pub fn create_settlement_proposal_at(
        &mut self,
        creditor: NetworkId,
        debtor: NetworkId,
        amount_cents: u64,
        settlement_proof: Vec<u8>,
        now: u64,
        nonce: u64,
    ) -> (r: Broadcast)
        requires
            old(self).statistics().settlements_proposed < u64::MAX,
            old(self).statistics().zk_proofs_generated < u64::MAX,
        ensures
            final(self).local() == old(self).local(),
            final(self).settings() == old(self).settings(),
            final(self).pending() == old(self).pending(),
            final(self).pending_batches() == old(self).pending_batches(),
            final(self).proposals() == old(self).proposals().insert(
                sha256(vstd::utf8::encode_utf8(proposal_text(creditor@, debtor@, amount_cents))),
                final(self).proposals()[sha256(vstd::utf8::encode_utf8(proposal_text(creditor@, debtor@, amount_cents)))],
            ),
            new_proposal(
                final(self).proposals()[sha256(vstd::utf8::encode_utf8(proposal_text(creditor@, debtor@, amount_cents)))],
                creditor@,
                debtor@,
                amount_cents,
                settlement_proof@,
                now,
            ),
            final(self).statistics() == (PipelineStats {
                settlements_proposed: (old(self).statistics().settlements_proposed + 1) as u64,
                zk_proofs_generated: (old(self).statistics().zk_proofs_generated + 1) as u64,
                ..old(self).statistics()
            }),
            r.topic@ == "settlement"@,
            r.message matches OperatorMessage::SettlementProposal { creditor: c, debtor: d, amount_cents: a, period_hash, nonce: n }
                && c@ == creditor@ && d@ == debtor@ && a == amount_cents && period_hash@ == sha256(current_period_bytes())
                && n == nonce,
    {
        let proposal_id = proposal_hash(&creditor, &debtor, amount_cents);
        let period_hash = current_period_hash();
        let mut proofs: Vec<Vec<u8>> = Vec::new();
        proofs.push(settlement_proof);
        let proposal = SettlementProposal {
            proposal_id,
            creditor: creditor.copy_id(),
            debtor: debtor.copy_id(),
            amount_cents,
            period_hash,
            cdr_batch_proofs: proofs,
            proposed_at: now,
            status: SettlementStatus::Proposed,
        };
        self.settlement_proposals.insert(proposal_id, proposal);
        self.stats.settlements_proposed = self.stats.settlements_proposed + 1;
        self.stats.zk_proofs_generated = self.stats.zk_proofs_generated + 1;
        Broadcast {
            topic: "settlement".to_string(),
            message: OperatorMessage::SettlementProposal {
                creditor,
                debtor,
                amount_cents,
                period_hash: current_period_hash(),
                nonce,
            },
        }
    }

    /// Cycles of three operators whose settlements could be netted; none are
    /// looked for yet.
    pub fn find_netting_opportunities(&self) -> (r: Vec<TriangularNetting>)
        ensures
            r@.len() == 0,
    {
        Vec::new()
    }

    /// The netting cycles a settlement round acts on: none when triangular
    /// netting is switched off, else those found.
    pub fn process_settlements(&self) -> (r: Vec<TriangularNetting>)
        ensures
            r@.len() == 0,
    {
        if !self.config.enable_triangular_netting {
            return Vec::new();
        }
        self.find_netting_opportunities()
    }

    /// Adds a sample batch between two networks at `now`: a five-minute call
    /// at 50 cents a minute and 100 MB of data at 2 cents each, EUR 4.50 in
    /// all, over the last day, under the hash of `batch_`, the networks and
    /// the time. Returns its announcement on `cdr_batches` and the arguments
    /// of its privacy proof.
    pub fn add_sample_cdr_batch_at(&mut self, home_network: NetworkId, visited_network: NetworkId, now: u64) -> (r: (
        Broadcast,
        CDRProofInputs,
    ))
        requires
            now >= DAY_SECONDS,
        ensures
            sample_added(*old(self), *final(self), home_network@, visited_network@, now, r),
    {
        proof {
            reveal(sample_added);
        }
        proof {
            reveal_strlit("batch_");
            reveal_strlit("_");
        }
        let mut text = "batch_".to_string();
        text.append(network_debug_text(&home_network).as_str());
        text.append("_");
        text.append(network_debug_text(&visited_network).as_str());
        text.append("_");
        push_decimal_text(&mut text, now);
        assert(text@ =~= sample_batch_text(home_network@, visited_network@, now));
        let batch_id = hash_data(text_bytes(&text).as_slice());
        let mut records: Vec<CDRRecord> = Vec::new();
        records.push(
            CDRRecord {
                record_id: "call_001".to_string(),
                call_minutes: 5,
                data_mb: 0,
                sms_count: 0,
                call_rate_cents: 50,
                data_rate_cents: 0,
                sms_rate_cents: 0,
                timestamp: now,
            },
        );
        records.push(
            CDRRecord {
                record_id: "data_001".to_string(),
                call_minutes: 0,
                data_mb: 100,
                sms_count: 0,
                call_rate_cents: 0,
                data_rate_cents: 2,
                sms_rate_cents: 0,
                timestamp: now,
            },
        );
        let mut total_charges: u64 = 0;
        let mut i: usize = 0;
        while i < records.len()
            invariant
                i <= records@.len(),
                records@.len() == 2,
                records@[0].call_minutes == 5 && records@[0].call_rate_cents == 50 && records@[0].data_mb == 0
                    && records@[0].sms_count == 0,
                records@[1].data_mb == 100 && records@[1].data_rate_cents == 2 && records@[1].call_minutes == 0
                    && records@[1].sms_count == 0,
                i == 0 ==> total_charges == 0,
                i == 1 ==> total_charges == 250,
                i == 2 ==> total_charges == 450,
            decreases records@.len() - i,
        {
            let r = &records[i];
            total_charges = total_charges + r.call_minutes * r.call_rate_cents + r.data_mb * r.data_rate_cents + r.sms_count
                * r.sms_rate_cents;
            i = i + 1;
        }
        let inputs = CDRProofInputs {
            call_minutes: records[0].call_minutes + records[1].call_minutes,
            data_mb: records[0].data_mb + records[1].data_mb,
            sms_count: records[0].sms_count + records[1].sms_count,
            call_rate_cents: 50,
            data_rate_cents: 2,
            sms_rate_cents: 10,
            total_charges,
            period_hash: 12345,
            network_pair_hash: 67890,
        };
        let record_count = records.len() as u32;
        let batch = CDRBatch {
            batch_id,
            home_network: home_network.copy_id(),
            visited_network: visited_network.copy_id(),
            records,
            period_start: now - DAY_SECONDS,
            period_end: now,
            total_charges_cents: total_charges,
        };
        self.pending_cdr_batches.insert(batch_id, batch);
        let announcement = Broadcast {
            topic: "cdr_batches".to_string(),
            message: OperatorMessage::CDRBatchReady {
                batch_id,
                network_pair: (home_network, visited_network),
                record_count,
                total_amount: total_charges,
            },
        };
        (announcement, inputs)
    }
}

impl CDRPipeline {
    /// Proposes a settlement now, with a random nonce: see
    /// `create_settlement_proposal_at`; `None`, changing nothing, when the
    /// random source fails.
    pub fn create_settlement_proposal(
        &mut self,
        creditor: NetworkId,
        debtor: NetworkId,
        amount_cents: u64,
        settlement_proof: Vec<u8>,
    ) -> (r: Option<Broadcast>)
        requires
            old(self).statistics().settlements_proposed < u64::MAX,
            old(self).statistics().zk_proofs_generated < u64::MAX,
        ensures
            r is None ==> *final(self) == *old(self),
            r is Some ==> final(self).pending() == old(self).pending(),
            r is Some ==> final(self).proposals() == old(self).proposals().insert(
                sha256(vstd::utf8::encode_utf8(proposal_text(creditor@, debtor@, amount_cents))),
                final(self).proposals()[sha256(vstd::utf8::encode_utf8(proposal_text(creditor@, debtor@, amount_cents)))],
            ),
            r matches Some(b) ==> b.topic@ == "settlement"@,
    {
        let now = now_seconds();
        let nonce = match random_u64() {
            Some(n) => n,
            None => {
                return None;
            },
        };
        Some(self.create_settlement_proposal_at(creditor, debtor, amount_cents, settlement_proof, now, nonce))
    }

    /// Adds a sample batch now (see `add_sample_cdr_batch_at`); `None` when
    /// the clock reads less than a day after the epoch, so that the batch's
    /// period cannot start a day earlier.
    pub fn add_sample_cdr_batch(&mut self, home_network: NetworkId, visited_network: NetworkId) -> (r: Option<
        (Broadcast, CDRProofInputs),
    >)
        ensures
            final(self).local() == old(self).local(),
            final(self).settings() == old(self).settings(),
            final(self).proposals() == old(self).proposals(),
            final(self).statistics() == old(self).statistics(),
            r is None ==> *final(self) == *old(self),
            r matches Some(x) ==> exists|now: u64|
                now >= DAY_SECONDS && #[trigger] sample_added(*old(self), *final(self), home_network@, visited_network@, now, x),
    {
        let now = now_seconds();
        if now < DAY_SECONDS {
            return None;
        }
        let ghost (h, v) = (home_network@, visited_network@);
        let added = self.add_sample_cdr_batch_at(home_network, visited_network, now);
        assert(sample_added(*old(self), *self, h, v, now, added));
        assert(self.local() == old(self).local() && self.settings() == old(self).settings() && self.proposals() == old(
            self,
        ).proposals() && self.statistics() == old(self).statistics()) by {
            reveal(sample_added);
        }
        assert(now >= DAY_SECONDS);
        let r = Some(added);
        assert(sample_added(*old(self), *self, h, v, now, r->Some_0));
        assert(exists|t: u64| t >= DAY_SECONDS && #[trigger] sample_added(*old(self), *self, h, v, t, r->Some_0));
        r
    }
}

} // verus!
