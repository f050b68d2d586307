//! An operator's pipeline of Billing and Charging Evolution records: each
//! record's charge split into rates that a privacy proof can check, records
//! kept in batches, settlements proposed and accepted between networks, and
//! the pipeline's statistics.
use vstd::prelude::*;
use crate::clock::{now_seconds, unix_now};
use crate::entropy::random_u64;
use crate::collections::VecMap;
use crate::encoding::{contains_text, decimal_text, push_decimal_text, str_contains, str_eq};
use crate::network::operator_messages::{proposal_hash, proposal_text, Broadcast, OperatorMessage};
use crate::blockchain::block::Transaction;
use crate::primitives::error::{BlockchainError, Result};
use crate::primitives::primitives::{hash_data, sha256, Blake2bHash, NetworkId, NetworkIdView};
use crate::primitives::text::{network_debug, network_debug_text, text_bytes};
pub use crate::cdr_pipeline::{
    current_period_bytes, current_period_hash, new_proposal, proposal_with_status, sample_batch_text, settlement_record,
    settlement_transaction, BatchCommitments, CDRProofInputs,
    SettlementProposal, SettlementStatus, TriangularNetting, DAY_SECONDS,
};

verus! {

/// Settings of a pipeline.
pub struct PipelineConfig {
    pub keys_dir: String,
    pub batch_size: usize,
    pub settlement_threshold_cents: u64,
    pub auto_accept_threshold_cents: u64,
    pub enable_triangular_netting: bool,
    pub is_bootstrap: bool,
}

/// One record from an operator's billing system.
pub struct BCERecord {
    pub record_id: String,
    pub record_type: String,
    pub imsi: String,
    pub home_plmn: String,
    pub visited_plmn: String,
    pub session_duration: u64,
    pub bytes_uplink: u64,
    pub bytes_downlink: u64,
    pub wholesale_charge: u64,
    pub retail_charge: u64,
    pub currency: String,
    pub timestamp: u64,
    pub charging_id: u64,
}

/// Records between a home and a visited network over a period.
pub struct BCEBatch {
    pub batch_id: Blake2bHash,
    pub home_network: NetworkId,
    pub visited_network: NetworkId,
    pub records: Vec<BCERecord>,
    pub period_start: u64,
    pub period_end: u64,
    pub total_charges_cents: u64,
}

/// Counts kept by a pipeline.
pub struct PipelineStats {
    pub bce_batches_processed: u64,
    pub zk_proofs_generated: u64,
    pub settlements_proposed: u64,
    pub settlements_finalized: u64,
    pub total_amount_settled_cents: u64,
}

/// Statistics with every count zero.
pub open spec fn zero_stats() -> PipelineStats {
    PipelineStats {
        bce_batches_processed: 0,
        zk_proofs_generated: 0,
        settlements_proposed: 0,
        settlements_finalized: 0,
        total_amount_settled_cents: 0,
    }
}

impl Default for PipelineStats {
    fn default() -> (s: Self)
        ensures
            s == zero_stats(),
    {
        PipelineStats {
            bce_batches_processed: 0,
            zk_proofs_generated: 0,
            settlements_proposed: 0,
            settlements_finalized: 0,
            total_amount_settled_cents: 0,
        }
    }
}

/// Bytes in a megabyte.
pub const BYTES_PER_MB: u64 = 1048576;

/// Most cents a minute of calls may be charged at in a proof.
pub const MAX_CALL_RATE: u64 = 200;

/// Lesser of two integers.
pub open spec fn min_int(a: int, b: int) -> int {
    if a < b {
        a
    } else {
        b
    }
}

/// Whole minutes of a session.
pub open spec fn record_minutes(r: BCERecord) -> int {
    r.session_duration as int / 60
}

/// Whole megabytes a session moved.
pub open spec fn record_mb(r: BCERecord) -> int {
    (r.bytes_uplink + r.bytes_downlink) / BYTES_PER_MB as int
}

/// Call, data and per-message rates that a charge `w` is split into for a
/// session of `cm` minutes and `dm` megabytes (with one message): calls at
/// most 200 cents a minute, data taking what is left by whole megabytes, and
/// the remainder on the message, so that the rates give the charge back to
/// the cent.
pub open spec fn bce_rates(cm: int, dm: int, w: int) -> (int, int, int) {
    if cm > 0 && dm > 0 {
        let cr = min_int(MAX_CALL_RATE as int, w / cm);
        let rest = w - cm * cr;
        let dr = rest / dm;
        (cr, dr, rest - dm * dr)
    } else if cm > 0 {
        let cr = min_int(MAX_CALL_RATE as int, w / cm);
        (cr, 1, w - cm * cr)
    } else if dm > 0 {
        (1, w / dm, w - dm * (w / dm))
    } else {
        (1, 1, w)
    }
}

/// Charge that the rates give back: minutes, megabytes and the one message
/// each at its rate.
pub open spec fn rates_total(cm: int, dm: int, rates: (int, int, int)) -> int {
    cm * rates.0 + dm * rates.1 + rates.2
}

/// Text of the error for a charge that the rates do not give back exactly.
pub open spec fn inexact_message(calculated: int, expected: int) -> Seq<char> {
    "EXACT constraint validation failed: calculated "@ + decimal_text(calculated as nat) + " != expected "@
        + decimal_text(expected as nat) + ". Financial settlement must be exact to the cent."@
}

/// Every session's rates give its charge back to the cent, and none of them
/// is negative.
pub proof fn law_rates_split_exactly(cm: int, dm: int, w: int)
    requires
        cm >= 0,
        dm >= 0,
        w >= 0,
    ensures
        rates_total(cm, dm, bce_rates(cm, dm, w)) == w,
        bce_rates(cm, dm, w).0 >= 0,
        bce_rates(cm, dm, w).1 >= 0,
        0 <= bce_rates(cm, dm, w).2 <= w,
{
    if cm > 0 {
        let cr = min_int(MAX_CALL_RATE as int, w / cm);
        assert(0 <= cr <= w / cm);
        assert(cm * cr <= w) by (nonlinear_arith)
            requires
                cm > 0,
                0 <= cr <= w / cm,
                w >= 0,
        ;
        assert(cm * cr >= 0) by (nonlinear_arith)
            requires
                cm > 0,
                cr >= 0,
        ;
        if dm > 0 {
            let rest = w - cm * cr;
            let dr = rest / dm;
            assert(0 <= dm * dr <= rest) by (nonlinear_arith)
                requires
                    dm > 0,
                    rest >= 0,
                    dr == rest / dm,
            ;
            assert(cm * cr + dm * dr + (rest - dm * dr) == w);
        }
    } else if dm > 0 {
        let dr = w / dm;
        assert(0 <= dm * dr <= w) by (nonlinear_arith)
            requires
                dm > 0,
                w >= 0,
                dr == w / dm,
        ;
    }
}

/// Whether `r` is what `bce_proof_inputs` gives for a record: the proof's
/// arguments when the rates give the charge back exactly, else the error
/// naming both amounts.
pub open spec fn proof_inputs_result(record: BCERecord, r: Result<CDRProofInputs>) -> bool {
    let cm = record_minutes(record);
    let dm = record_mb(record);
    let w = record.wholesale_charge as int;
    let rates = bce_rates(cm, dm, w);
    &&& rates_total(cm, dm, rates) == w ==> r == Ok::<CDRProofInputs, BlockchainError>(
        CDRProofInputs {
            call_minutes: cm as u64,
            data_mb: dm as u64,
            sms_count: 1,
            call_rate_cents: rates.0 as u64,
            data_rate_cents: rates.1 as u64,
            sms_rate_cents: rates.2 as u64,
            total_charges: w as u64,
            period_hash: w as u64,
            network_pair_hash: (cm + dm) as u64,
        },
    )
    &&& rates_total(cm, dm, rates) != w ==> (r matches Err(BlockchainError::InvalidOperation(m)) && m@ == inexact_message(
        rates_total(cm, dm, rates),
        w,
    ))
}

/// Rates that a charge splits into (see `bce_rates`).
fn split_charge(call_minutes: u64, data_mb: u64, wholesale_charge: u64) -> (r: (u64, u64, u64))
    ensures
        r.0 as int == bce_rates(call_minutes as int, data_mb as int, wholesale_charge as int).0,
        r.1 as int == bce_rates(call_minutes as int, data_mb as int, wholesale_charge as int).1,
        r.2 as int == bce_rates(call_minutes as int, data_mb as int, wholesale_charge as int).2,
        r.0 <= MAX_CALL_RATE || call_minutes == 0,
        r.1 <= wholesale_charge || data_mb == 0,
        r.2 <= wholesale_charge,
{
    if call_minutes > 0 && data_mb > 0 {
        let by_minute = wholesale_charge / call_minutes;
        let call_rate = if MAX_CALL_RATE < by_minute {
            MAX_CALL_RATE
        } else {
            by_minute
        };
        assert(call_minutes * call_rate <= wholesale_charge) by (nonlinear_arith)
            requires
                call_rate <= by_minute,
                by_minute == wholesale_charge / call_minutes,
                call_minutes > 0,
        ;
        let call_charge = call_minutes * call_rate;
        let remaining_charge = wholesale_charge - call_charge;
        let data_rate = remaining_charge / data_mb;
        assert(data_mb * data_rate <= remaining_charge) by (nonlinear_arith)
            requires
                data_rate == remaining_charge / data_mb,
                data_mb > 0,
        ;
        let data_charge = data_mb * data_rate;
        (call_rate, data_rate, remaining_charge - data_charge)
    } else if call_minutes > 0 {
        let by_minute = wholesale_charge / call_minutes;
        let call_rate = if MAX_CALL_RATE < by_minute {
            MAX_CALL_RATE
        } else {
            by_minute
        };
        assert(call_minutes * call_rate <= wholesale_charge) by (nonlinear_arith)
            requires
                call_rate <= by_minute,
                by_minute == wholesale_charge / call_minutes,
                call_minutes > 0,
        ;
        let remaining = wholesale_charge - call_minutes * call_rate;
        (call_rate, 1, remaining)
    } else if data_mb > 0 {
        let data_rate = wholesale_charge / data_mb;
        assert(data_mb * data_rate <= wholesale_charge) by (nonlinear_arith)
            requires
                data_rate == wholesale_charge / data_mb,
                data_mb > 0,
        ;
        (1, data_rate, wholesale_charge - data_mb * data_rate)
    } else {
        (1, 1, wholesale_charge)
    }
}

/// Arguments of the privacy proof of a record: its minutes and megabytes,
/// one message, the rates its wholesale charge splits into, the charge, the
/// charge again as period hash, and minutes plus megabytes as pair hash. A
/// charge that the rates do not give back exactly is refused.
pub fn bce_proof_inputs(record: &BCERecord) -> (r: Result<CDRProofInputs>)
    requires
        record.bytes_uplink + record.bytes_downlink <= u64::MAX,
    ensures
        proof_inputs_result(*record, r),
        r is Ok,
{
    let call_minutes = record.session_duration / 60;
    let data_mb = (record.bytes_uplink + record.bytes_downlink) / BYTES_PER_MB;
    let wholesale_charge = record.wholesale_charge;
    let sms_count: u64 = 1;
    let (call_rate, data_rate, sms_rate) = split_charge(call_minutes, data_mb, wholesale_charge);
    let ghost rates = bce_rates(call_minutes as int, data_mb as int, wholesale_charge as int);
    assert(call_rate == rates.0 && data_rate == rates.1 && sms_rate == rates.2);
    proof {
        law_rates_split_exactly(call_minutes as int, data_mb as int, wholesale_charge as int);
    }
    assert(call_minutes * call_rate + data_mb * data_rate <= u64::MAX) by (nonlinear_arith)
        requires
            call_minutes * call_rate + data_mb * data_rate + sms_rate <= u64::MAX,
            0 <= sms_rate,
    ;
    assert(call_minutes * call_rate <= u64::MAX && data_mb * data_rate <= u64::MAX) by (nonlinear_arith)
        requires
            call_minutes * call_rate + data_mb * data_rate <= u64::MAX,
            0 <= call_minutes * call_rate,
            0 <= data_mb * data_rate,
    ;
    let calculated_total = call_minutes * call_rate + data_mb * data_rate + sms_count * sms_rate;
    if calculated_total != wholesale_charge {
        proof {
            reveal_strlit("EXACT constraint validation failed: calculated ");
        }
        let mut message = "EXACT constraint validation failed: calculated ".to_string();
        push_decimal_text(&mut message, calculated_total);
        message.append(" != expected ");
        push_decimal_text(&mut message, wholesale_charge);
        message.append(". Financial settlement must be exact to the cent.");
        assert(message@ =~= inexact_message(calculated_total as int, wholesale_charge as int));
        return Err(BlockchainError::InvalidOperation(message));
    }
    Ok(
        CDRProofInputs {
            call_minutes,
            data_mb,
            sms_count,
            call_rate_cents: call_rate,
            data_rate_cents: data_rate,
            sms_rate_cents: sms_rate,
            total_charges: wholesale_charge,
            period_hash: wholesale_charge,
            network_pair_hash: call_minutes + data_mb,
        },
    )
}

/// Network that a PLMN code stands for; unknown codes become an operator
/// named after the code in an unknown country.
pub open spec fn plmn_network(plmn: Seq<char>) -> NetworkIdView {
    if plmn == "26201"@ {
        NetworkIdView::Operator { name: "T-Mobile-DE"@, country: "Germany"@ }
    } else if plmn == "23410"@ {
        NetworkIdView::Operator { name: "Vodafone-UK"@, country: "UK"@ }
    } else if plmn == "20801"@ {
        NetworkIdView::Operator { name: "Orange-FR"@, country: "France"@ }
    } else if plmn == "24001"@ {
        NetworkIdView::Operator { name: "Telenor-NO"@, country: "Norway"@ }
    } else if plmn == "20810"@ {
        NetworkIdView::Operator { name: "SFR-FR"@, country: "France"@ }
    } else if plmn == "26202"@ {
        NetworkIdView::Operator { name: "Vodafone-DE"@, country: "Germany"@ }
    } else {
        NetworkIdView::Operator { name: "PLMN-"@ + plmn, country: "Unknown"@ }
    }
}

/// Network that a PLMN code stands for; unknown codes become an operator
/// named after the code in an unknown country.
pub fn plmn_to_network_id(plmn: &str) -> (n: NetworkId)
    ensures
        n@ == plmn_network(plmn@),
{
    if str_eq(plmn, "26201") {
        NetworkId::new("T-Mobile-DE", "Germany")
    } else if str_eq(plmn, "23410") {
        NetworkId::new("Vodafone-UK", "UK")
    } else if str_eq(plmn, "20801") {
        NetworkId::new("Orange-FR", "France")
    } else if str_eq(plmn, "24001") {
        NetworkId::new("Telenor-NO", "Norway")
    } else if str_eq(plmn, "20810") {
        NetworkId::new("SFR-FR", "France")
    } else if str_eq(plmn, "26202") {
        NetworkId::new("Vodafone-DE", "Germany")
    } else {
        let mut name = "PLMN-".to_string();
        name.append(plmn);
        NetworkId::new(name.as_str(), "Unknown")
    }
}

/// The six networks of the netting matrix, in order.
pub open spec fn matrix_networks() -> Seq<NetworkIdView> {
    seq![
        NetworkIdView::Operator { name: "T-Mobile-DE"@, country: "Germany"@ },
        NetworkIdView::Operator { name: "Vodafone-UK"@, country: "UK"@ },
        NetworkIdView::Operator { name: "Orange-FR"@, country: "France"@ },
        NetworkIdView::Operator { name: "Telenor-NO"@, country: "Norway"@ },
        NetworkIdView::Operator { name: "SFR-FR"@, country: "France"@ },
        NetworkIdView::Operator { name: "Vodafone-DE"@, country: "Germany"@ },
    ]
}

/// Place of a network in the netting matrix, or `default` when it is not
/// one of its six.
pub open spec fn matrix_index(n: NetworkIdView, default: int) -> int {
    if n == matrix_networks()[0] {
        0
    } else if n == matrix_networks()[1] {
        1
    } else if n == matrix_networks()[2] {
        2
    } else if n == matrix_networks()[3] {
        3
    } else if n == matrix_networks()[4] {
        4
    } else if n == matrix_networks()[5] {
        5
    } else {
        default
    }
}

/// Places of a home and a visited network in the netting matrix; a network
/// not in it takes place 0 as home and 1 as visited.
pub fn network_to_matrix_index(home: &NetworkId, visited: &NetworkId) -> (r: (usize, usize))
    ensures
        r.0 == matrix_index(home@, 0),
        r.1 == matrix_index(visited@, 1),
{
    let mut networks: Vec<NetworkId> = Vec::new();
    networks.push(NetworkId::new("T-Mobile-DE", "Germany"));
    networks.push(NetworkId::new("Vodafone-UK", "UK"));
    networks.push(NetworkId::new("Orange-FR", "France"));
    networks.push(NetworkId::new("Telenor-NO", "Norway"));
    networks.push(NetworkId::new("SFR-FR", "France"));
    networks.push(NetworkId::new("Vodafone-DE", "Germany"));
    let ghost views = networks@.map_values(|n: NetworkId| n@);
    assert(views =~= matrix_networks());
    let home_idx = match position_in(&networks, home) {
        Some(i) => i,
        None => 0,
    };
    let visited_idx = match position_in(&networks, visited) {
        Some(i) => i,
        None => 1,
    };
    (home_idx, visited_idx)
}

/// Place of the first network of `list` equal to `x`.
fn position_in(list: &Vec<NetworkId>, x: &NetworkId) -> (r: Option<usize>)
    requires
        list@.map_values(|n: NetworkId| n@) == matrix_networks(),
    ensures
        r matches Some(i) ==> i == matrix_index(x@, -1) && 0 <= i < 6,
        r is None ==> matrix_index(x@, -1) == -1,
{
    assert(list@.len() == list@.map_values(|n: NetworkId| n@).len());
    assert forall|j: int| 0 <= j < 6 implies #[trigger] list@[j]@ == matrix_networks()[j] by {
        assert(list@.map_values(|n: NetworkId| n@)[j] == list@[j]@);
    }
    let mut i: usize = 0;
    while i < list.len()
        invariant
            i <= list@.len(),
            list@.len() == 6,
            forall|j: int| 0 <= j < 6 ==> #[trigger] list@[j]@ == matrix_networks()[j],
            forall|j: int| 0 <= j < i ==> list@[j]@ != x@,
        decreases list@.len() - i,
    {
        if list[i] == *x {
            proof {
                assert(x@ == matrix_networks()[i as int]);
                assert forall|j: int| 0 <= j < i implies #[trigger] matrix_networks()[j] != x@ by {
                    assert(list@[j]@ != x@);
                }
            }
            return Some(i);
        }
        i = i + 1;
    }
    proof {
        assert forall|j: int| 0 <= j < 6 implies matrix_networks()[j] != x@ by {
            assert(list@[j]@ != x@);
        }
    }
    None
}

/// Sum of the totals of the batches between `home` and `visited`.
pub open spec fn pair_total(batches: Seq<BCEBatch>, home: NetworkIdView, visited: NetworkIdView) -> int
    decreases batches.len(),
{
    if batches.len() == 0 {
        0
    } else {
        pair_total(batches.drop_last(), home, visited) + if batches.last().home_network@ == home
            && batches.last().visited_network@ == visited {
            batches.last().total_charges_cents as int
        } else {
            0
        }
    }
}

/// Whether a batch is kept as announced by another operator: its id, pair
/// of networks and total, with no records and no period.
pub open spec fn announced_batch(b: BCEBatch, id: Blake2bHash, home: NetworkIdView, visited: NetworkIdView, total: u64) -> bool {
    &&& b.batch_id == id
    &&& b.home_network@ == home
    &&& b.visited_network@ == visited
    &&& b.records@.len() == 0
    &&& b.period_start == 0
    &&& b.period_end == 0
    &&& b.total_charges_cents == total
}

/// The batches, in the order the pipeline holds them.
pub open spec fn batch_values(entries: Seq<(Blake2bHash, BCEBatch)>) -> Seq<BCEBatch> {
    entries.map_values(|e: (Blake2bHash, BCEBatch)| e.1)
}

/// An operator's pipeline of billing records: the batches awaiting
/// settlement, the settlement proposals by id, and its statistics.
pub struct BCEPipeline {
    config: PipelineConfig,
    network_id: NetworkId,
    pending_bce_batches: VecMap<Blake2bHash, BCEBatch>,
    settlement_proposals: VecMap<Blake2bHash, SettlementProposal>,
    stats: PipelineStats,
}

impl BCEPipeline {
    /// This operator's network.
    pub closed spec fn local(&self) -> NetworkIdView {
        self.network_id@
    }

    pub closed spec fn settings(&self) -> PipelineConfig {
        self.config
    }

    /// Batches awaiting settlement, by id.
    pub closed spec fn pending(&self) -> Map<Seq<u8>, BCEBatch> {
        self.pending_bce_batches@
    }

    /// The batches awaiting settlement, in the order they are held.
    pub closed spec fn pending_batches(&self) -> Seq<BCEBatch> {
        batch_values(self.pending_bce_batches.entry_seq())
    }

    /// Settlement proposals, by id.
    pub closed spec fn proposals(&self) -> Map<Seq<u8>, SettlementProposal> {
        self.settlement_proposals@
    }

    pub closed spec fn statistics(&self) -> PipelineStats {
        self.stats
    }

    /// A pipeline with no batch, proposal or count yet.
    pub fn new(network_id: NetworkId, config: PipelineConfig) -> (p: Self)
        ensures
            p.local() == network_id@,
            p.settings() == config,
            p.pending() == Map::<Seq<u8>, BCEBatch>::empty(),
            p.proposals() == Map::<Seq<u8>, SettlementProposal>::empty(),
            p.statistics() == zero_stats(),
    {
        BCEPipeline {
            config,
            network_id,
            pending_bce_batches: VecMap::new(),
            settlement_proposals: VecMap::new(),
            stats: PipelineStats::default(),
        }
    }

    /// The pipeline's statistics.
    pub fn get_stats(&self) -> (s: &PipelineStats)
        ensures
            *s == self.statistics(),
    {
        &self.stats
    }

    /// A batch announced by another operator: when its proof checked out, it
    /// is kept, with no records, period or proofs of its own, for settlement.
    pub fn process_cdr_batch_notification(
        &mut self,
        batch_id: Blake2bHash,
        network_pair: (NetworkId, NetworkId),
        total_charges: u64,
        proof_valid: bool,
    )
        requires
            old(self).statistics().bce_batches_processed < u64::MAX,
        ensures
            final(self).local() == old(self).local(),
            final(self).settings() == old(self).settings(),
            final(self).proposals() == old(self).proposals(),
            !proof_valid ==> final(self).pending() == old(self).pending() && final(self).statistics() == old(self).statistics(),
            proof_valid ==> final(self).pending() == old(self).pending().insert(batch_id@, final(self).pending()[batch_id@])
                && announced_batch(final(self).pending()[batch_id@], batch_id, network_pair.0@, network_pair.1@, total_charges)
                && final(self).statistics() == (PipelineStats {
                bce_batches_processed: (old(self).statistics().bce_batches_processed + 1) as u64,
                ..old(self).statistics()
            }),
    {
        if proof_valid {
            let batch = BCEBatch {
                batch_id,
                home_network: network_pair.0,
                visited_network: network_pair.1,
                records: Vec::new(),
                period_start: 0,
                period_end: 0,
                total_charges_cents: total_charges,
            };
            self.pending_bce_batches.insert(batch_id, batch);
            self.stats.bce_batches_processed = self.stats.bce_batches_processed + 1;
        }
    }
}

/// Statistics after a settlement of `amount` is finalized.
pub open spec fn settled(stats: PipelineStats, amount: u64) -> PipelineStats {
    PipelineStats {
        settlements_finalized: (stats.settlements_finalized + 1) as u64,
        total_amount_settled_cents: (stats.total_amount_settled_cents + amount) as u64,
        ..stats
    }
}

/// Whether some batch is between `home` and `visited`.
pub open spec fn has_pair(batches: Seq<BCEBatch>, home: NetworkIdView, visited: NetworkIdView) -> bool {
    exists|j: int| 0 <= j < batches.len() && batches[j].home_network@ == home && batches[j].visited_network@ == visited
}

proof fn lemma_pair_total_prefix(batches: Seq<BCEBatch>, k: int, home: NetworkIdView, visited: NetworkIdView)
    requires
        0 <= k <= batches.len(),
    ensures
        0 <= pair_total(batches.subrange(0, k), home, visited) <= pair_total(batches, home, visited),
    decreases batches.len() - k,
{
    if k < batches.len() {
        lemma_pair_total_prefix(batches, k + 1, home, visited);
        assert(batches.subrange(0, k + 1).drop_last() =~= batches.subrange(0, k));
        lemma_pair_total_nonneg(batches.subrange(0, k), home, visited);
    } else {
        assert(batches.subrange(0, k) =~= batches);
        lemma_pair_total_nonneg(batches, home, visited);
    }
}

proof fn lemma_pair_total_nonneg(batches: Seq<BCEBatch>, home: NetworkIdView, visited: NetworkIdView)
    ensures
        0 <= pair_total(batches, home, visited),
    decreases batches.len(),
{
    if batches.len() > 0 {
        lemma_pair_total_nonneg(batches.drop_last(), home, visited);
    }
}

impl BCEPipeline {
    /// A settlement proposed to this operator as debtor is accepted at once
    /// when it is within the auto-accept threshold: the acceptance, under the
    /// hash of the creditor, debtor and amount and an all-zero signature, is
    /// to be broadcast on `settlement`, and the settlement counts as
    /// finalized. Other proposals change nothing.
    pub fn process_settlement_proposal(&mut self, creditor: &NetworkId, debtor: &NetworkId, amount_cents: u64) -> (r: Vec<
        Broadcast,
    >)
        requires
            old(self).statistics().settlements_finalized < u64::MAX,
            old(self).statistics().total_amount_settled_cents + amount_cents <= u64::MAX,
        ensures
            final(self).local() == old(self).local(),
            final(self).settings() == old(self).settings(),
            final(self).pending() == old(self).pending(),
            final(self).pending_batches() == old(self).pending_batches(),
            final(self).proposals() == old(self).proposals(),
            if debtor@ == old(self).local() && amount_cents <= old(self).settings().auto_accept_threshold_cents {
                &&& final(self).statistics() == settled(old(self).statistics(), amount_cents)
                &&& r@.len() == 1
                &&& r@[0].topic@ == "settlement"@
                &&& r@[0].message matches OperatorMessage::SettlementAccept { proposal_hash, signature } && proposal_hash@
                    == sha256(vstd::utf8::encode_utf8(proposal_text(creditor@, debtor@, amount_cents))) && signature@
                    == Seq::new(64, |i: int| 0u8)
            } else {
                final(self).statistics() == old(self).statistics() && r@.len() == 0
            },
    {
        let mut out: Vec<Broadcast> = Vec::new();
        if *debtor == self.network_id && amount_cents <= self.config.auto_accept_threshold_cents {
            let proposal_id = proposal_hash(creditor, debtor, amount_cents);
            let mut signature: Vec<u8> = Vec::new();
            while signature.len() < 64
                invariant
                    signature@.len() <= 64,
                    forall|i: int| 0 <= i < signature@.len() ==> signature@[i] == 0u8,
                decreases 64 - signature@.len(),
            {
                signature.push(0u8);
            }
            assert(signature@ =~= Seq::new(64, |i: int| 0u8));
            out.push(
                Broadcast {
                    topic: "settlement".to_string(),
                    message: OperatorMessage::SettlementAccept { proposal_hash: proposal_id, signature },
                },
            );
            self.stats.settlements_finalized = self.stats.settlements_finalized + 1;
            self.stats.total_amount_settled_cents = self.stats.total_amount_settled_cents + amount_cents;
        }
        out
    }

    /// Finalizes one of this operator's proposals: it is marked finalized, the
    /// settlement counts as finalized with its amount, and the chain
    /// transaction recording it is returned. Unknown proposals change nothing.
    pub fn finalize_settlement(&mut self, proposal_id: &Blake2bHash) -> (r: Option<Transaction>)
        requires
            old(self).proposals().contains_key(proposal_id@) ==> old(self).statistics().settlements_finalized < u64::MAX
                && old(self).statistics().total_amount_settled_cents + old(self).proposals()[proposal_id@].amount_cents
                <= u64::MAX,
        ensures
            final(self).local() == old(self).local(),
            final(self).settings() == old(self).settings(),
            final(self).pending() == old(self).pending(),
            final(self).pending_batches() == old(self).pending_batches(),
            old(self).proposals().contains_key(proposal_id@) ==> {
                &&& final(self).proposals() == old(self).proposals().insert(
                    proposal_id@,
                    proposal_with_status(old(self).proposals()[proposal_id@], SettlementStatus::Finalized),
                )
                &&& final(self).statistics() == settled(
                    old(self).statistics(),
                    old(self).proposals()[proposal_id@].amount_cents,
                )
                &&& r matches Some(t) && settlement_record(old(self).proposals()[proposal_id@], t)
            },
            !old(self).proposals().contains_key(proposal_id@) ==> r is None && final(self).proposals()
                == old(self).proposals() && final(self).statistics() == old(self).statistics(),
    {
        match self.settlement_proposals.remove(proposal_id) {
            Some(p) => {
                let mut p = p;
                let transaction = settlement_transaction(&p);
                let amount = p.amount_cents;
                p.status = SettlementStatus::Finalized;
                self.settlement_proposals.insert(*proposal_id, p);
                assert(self.settlement_proposals@ =~= old(self).proposals().insert(
                    proposal_id@,
                    proposal_with_status(old(self).proposals()[proposal_id@], SettlementStatus::Finalized),
                ));
                self.stats.settlements_finalized = self.stats.settlements_finalized + 1;
                self.stats.total_amount_settled_cents = self.stats.total_amount_settled_cents + amount;
                Some(transaction)
            },
            None => None,
        }
    }

    /// An acceptance of one of this operator's proposals: the proposal is
    /// accepted and then finalized (see `finalize_settlement`), returning the
    /// transaction recording it. Acceptances of unknown proposals change
    /// nothing.
    pub fn process_settlement_acceptance(&mut self, proposal_id: &Blake2bHash) -> (r: Option<Transaction>)
        requires
            old(self).proposals().contains_key(proposal_id@) ==> old(self).statistics().settlements_finalized < u64::MAX
                && old(self).statistics().total_amount_settled_cents + old(self).proposals()[proposal_id@].amount_cents
                <= u64::MAX,
        ensures
            final(self).local() == old(self).local(),
            final(self).settings() == old(self).settings(),
            final(self).pending() == old(self).pending(),
            final(self).pending_batches() == old(self).pending_batches(),
            old(self).proposals().contains_key(proposal_id@) ==> {
                &&& final(self).proposals() == old(self).proposals().insert(
                    proposal_id@,
                    proposal_with_status(old(self).proposals()[proposal_id@], SettlementStatus::Finalized),
                )
                &&& final(self).statistics() == settled(
                    old(self).statistics(),
                    old(self).proposals()[proposal_id@].amount_cents,
                )
                &&& r matches Some(t) && settlement_record(old(self).proposals()[proposal_id@], t)
            },
            !old(self).proposals().contains_key(proposal_id@) ==> r is None && final(self).proposals()
                == old(self).proposals() && final(self).statistics() == old(self).statistics(),
    {
        match self.settlement_proposals.remove(proposal_id) {
            Some(p) => {
                let mut p = p;
                p.status = SettlementStatus::Accepted;
                self.settlement_proposals.insert(*proposal_id, p);
                assert(self.settlement_proposals@ =~= old(self).proposals().insert(
                    proposal_id@,
                    proposal_with_status(old(self).proposals()[proposal_id@], SettlementStatus::Accepted),
                ));
                self.finalize_settlement(proposal_id)
            },
            None => None,
        }
    }

    /// Pairs of networks whose pending batches total at least the settlement
    /// threshold, each once, with that total.
    pub fn settlement_candidates(&self) -> (r: Vec<(NetworkId, NetworkId, u64)>)
        requires
            forall|h: NetworkIdView, v: NetworkIdView| pair_total(self.pending_batches(), h, v) <= u64::MAX,
        ensures
            forall|i: int|
                0 <= i < r@.len() ==> {
                    &&& has_pair(self.pending_batches(), (#[trigger] r@[i]).0@, r@[i].1@)
                    &&& r@[i].2 == pair_total(self.pending_batches(), r@[i].0@, r@[i].1@)
                    &&& r@[i].2 >= self.settings().settlement_threshold_cents
                },
            forall|h: NetworkIdView, v: NetworkIdView|
                has_pair(self.pending_batches(), h, v) && pair_total(self.pending_batches(), h, v)
                    >= self.settings().settlement_threshold_cents ==> exists|i: int|
                    0 <= i < r@.len() && (#[trigger] r@[i]).0@ == h && r@[i].1@ == v,
            forall|i: int, j: int| 0 <= i < j < r@.len() ==> ((#[trigger] r@[i]).0@, r@[i].1@) != ((#[trigger] r@[j]).0@, r@[j].1@),
    {
        let entries = self.pending_bce_batches.entries();
        let ghost bs = batch_values(entries@);
        let mut totals: VecMap<(NetworkId, NetworkId), u64> = VecMap::new();
        assert forall|h: NetworkIdView, v: NetworkIdView| pair_total(bs, h, v) <= u64::MAX by {
            assert(pair_total(self.pending_batches(), h, v) <= u64::MAX);
        }
        let mut k: usize = 0;
        while k < entries.len()
            invariant
                k <= entries@.len(),
                bs == batch_values(entries@),
                bs == self.pending_batches(),
                forall|h: NetworkIdView, v: NetworkIdView| pair_total(bs, h, v) <= u64::MAX,
                forall|h: NetworkIdView, v: NetworkIdView| #[trigger]
                    totals@.contains_key((h, v)) <==> has_pair(bs.subrange(0, k as int), h, v),
                forall|h: NetworkIdView, v: NetworkIdView|
                    #[trigger] totals@.contains_key((h, v)) ==> totals@[(h, v)] == pair_total(bs.subrange(0, k as int), h, v),
                forall|h: NetworkIdView, v: NetworkIdView|
                    !#[trigger] totals@.contains_key((h, v)) ==> pair_total(bs.subrange(0, k as int), h, v) == 0,
            decreases entries@.len() - k,
        {
            let b = &entries[k].1;
            let ghost pre = bs.subrange(0, k as int);
            let ghost post = bs.subrange(0, k + 1);
            assert(post.drop_last() =~= pre);
            assert(post.last() == bs[k as int]);
            assert(bs[k as int] == *b);
            let key = (b.home_network.copy_id(), b.visited_network.copy_id());
            let current = match totals.get(&key) {
                Some(t) => *t,
                None => 0,
            };
            proof {
                lemma_pair_total_prefix(bs, k + 1, key.0@, key.1@);
            }
            let sum = current + b.total_charges_cents;
            let ghost before = totals@;
            totals.insert(key, sum);
            proof {
                assert forall|h: NetworkIdView, v: NetworkIdView| #[trigger]
                    totals@.contains_key((h, v)) <==> has_pair(post, h, v) by {
                    if has_pair(pre, h, v) {
                        let j = choose|j: int|
                            0 <= j < pre.len() && pre[j].home_network@ == h && pre[j].visited_network@ == v;
                        assert(post[j] == pre[j]);
                    }
                    if has_pair(post, h, v) && (h, v) != (key.0@, key.1@) {
                        let j = choose|j: int|
                            0 <= j < post.len() && post[j].home_network@ == h && post[j].visited_network@ == v;
                        assert(j < pre.len());
                        assert(pre[j] == post[j]);
                    }
                    if (h, v) == (key.0@, key.1@) {
                        assert(post[k as int].home_network@ == h);
                    }
                }
            }
            k = k + 1;
        }
        assert(bs.subrange(0, entries@.len() as int) =~= bs);
        let all = totals.entries();
        let mut r: Vec<(NetworkId, NetworkId, u64)> = Vec::new();
        let ghost picked: Seq<int> = Seq::empty();
        let mut i: usize = 0;
        while i < all.len()
            invariant
                i <= all@.len(),
                bs == self.pending_batches(),
                forall|h: NetworkIdView, v: NetworkIdView| #[trigger] totals@.contains_key((h, v)) <==> has_pair(bs, h, v),
                forall|h: NetworkIdView, v: NetworkIdView|
                    #[trigger] totals@.contains_key((h, v)) ==> totals@[(h, v)] == pair_total(bs, h, v),
                all@ == totals.entry_seq(),
                crate::collections::keys_of(all@).no_duplicates(),
                forall|j: int| 0 <= j < all@.len() ==> #[trigger] totals@.contains_key(all@[j].0@) && totals@[all@[j].0@] == all@[j].1,
                picked.len() == r@.len(),
                forall|j: int| 0 <= j < picked.len() ==> 0 <= #[trigger] picked[j] < i,
                forall|a: int, b: int| 0 <= a < b < picked.len() ==> picked[a] < picked[b],
                forall|j: int|
                    0 <= j < r@.len() ==> ((#[trigger] r@[j]).0@, r@[j].1@) == all@[picked[j]].0@ && r@[j].2 == all@[picked[j]].1,
                forall|j: int| 0 <= j < r@.len() ==> (#[trigger] r@[j]).2 >= self.config.settlement_threshold_cents,
                forall|x: int|
                    0 <= x < i && all@[x].1 >= self.config.settlement_threshold_cents ==> exists|j: int|
                        0 <= j < picked.len() && #[trigger] picked[j] == x,
            decreases all@.len() - i,
        {
            let ghost old_picked = picked;
            if all[i].1 >= self.config.settlement_threshold_cents {
                let e = (all[i].0.0.copy_id(), all[i].0.1.copy_id(), all[i].1);
                r.push(e);
                proof {
                    picked = picked.push(i as int);
                    assert(picked[picked.len() - 1] == i);
                }
            }
            proof {
                assert forall|x: int|
                    0 <= x < i + 1 && all@[x].1 >= self.config.settlement_threshold_cents implies exists|j: int|
                        0 <= j < picked.len() && #[trigger] picked[j] == x by {
                    if x < i {
                        let j = choose|j: int| 0 <= j < old_picked.len() && #[trigger] old_picked[j] == x;
                        assert(picked[j] == old_picked[j]);
                    } else {
                        assert(picked[picked.len() - 1] == x);
                    }
                }
            }
            i = i + 1;
        }
        proof {
            assert forall|j: int| 0 <= j < r@.len() implies {
                &&& has_pair(self.pending_batches(), (#[trigger] r@[j]).0@, r@[j].1@)
                &&& r@[j].2 == pair_total(self.pending_batches(), r@[j].0@, r@[j].1@)
                &&& r@[j].2 >= self.settings().settlement_threshold_cents
            } by {
                let x = picked[j];
                assert(totals@.contains_key(all@[x].0@));
                assert(totals@.contains_key((r@[j].0@, r@[j].1@)));
            }
            assert forall|a: int, b: int| 0 <= a < b < r@.len() implies ((#[trigger] r@[a]).0@, r@[a].1@) != (
            (#[trigger] r@[b]).0@, r@[b].1@) by {
                let ka = crate::collections::keys_of(all@)[picked[a]];
                let kb = crate::collections::keys_of(all@)[picked[b]];
                assert(ka == all@[picked[a]].0@);
                assert(kb == all@[picked[b]].0@);
            }
            assert forall|h: NetworkIdView, v: NetworkIdView|
                has_pair(self.pending_batches(), h, v) && pair_total(self.pending_batches(), h, v)
                    >= self.settings().settlement_threshold_cents implies exists|i: int|
                    0 <= i < r@.len() && (#[trigger] r@[i]).0@ == h && r@[i].1@ == v by {
                assert(totals@.contains_key((h, v)));
                let x = choose|x: int| 0 <= x < all@.len() && #[trigger] all@[x].0@ == (h, v);
                assert(totals@[all@[x].0@] == all@[x].1);
                let j = choose|j: int| 0 <= j < picked.len() && #[trigger] picked[j] == x;
                assert(r@[j].0@ == h && r@[j].1@ == v);
            }
        }
        r
    }
}

impl BCEPipeline {
    /// Proposes settling `amount_cents` owed by `debtor` to `creditor`, with
    /// the settlement's proof, at `now`: the proposal is kept under the hash
    /// of the parties and amount, and announced on `settlement` with the
    /// random `nonce`; it counts as proposed and its proof as generated.
    pub fn create_settlement_proposal_at(
        &mut self,
        creditor: NetworkId,
        debtor: NetworkId,
        amount_cents: u64,
        settlement_proof: Vec<u8>,
        now: u64,
        nonce: u64,
    ) -> (r: Broadcast)
        requires
            old(self).statistics().settlements_proposed < u64::MAX,
            old(self).statistics().zk_proofs_generated < u64::MAX,
        ensures
            final(self).local() == old(self).local(),
            final(self).settings() == old(self).settings(),
            final(self).pending() == old(self).pending(),
            final(self).pending_batches() == old(self).pending_batches(),
            final(self).proposals() == old(self).proposals().insert(
                sha256(vstd::utf8::encode_utf8(proposal_text(creditor@, debtor@, amount_cents))),
                final(self).proposals()[sha256(vstd::utf8::encode_utf8(proposal_text(creditor@, debtor@, amount_cents)))],
            ),
            new_proposal(
                final(self).proposals()[sha256(vstd::utf8::encode_utf8(proposal_text(creditor@, debtor@, amount_cents)))],
                creditor@,
                debtor@,
                amount_cents,
                settlement_proof@,
                now,
            ),
            final(self).statistics() == (PipelineStats {
                settlements_proposed: (old(self).statistics().settlements_proposed + 1) as u64,
                zk_proofs_generated: (old(self).statistics().zk_proofs_generated + 1) as u64,
                ..old(self).statistics()
            }),
            r.topic@ == "settlement"@,
            r.message matches OperatorMessage::SettlementProposal { creditor: c, debtor: d, amount_cents: a, period_hash, nonce: n }
                && c@ == creditor@ && d@ == debtor@ && a == amount_cents && period_hash@ == sha256(current_period_bytes())
                && n == nonce,
    {
        let proposal_id = proposal_hash(&creditor, &debtor, amount_cents);
        let period_hash = current_period_hash();
        let mut proofs: Vec<Vec<u8>> = Vec::new();
        proofs.push(settlement_proof);
        let proposal = SettlementProposal {
            proposal_id,
            creditor: creditor.copy_id(),
            debtor: debtor.copy_id(),
            amount_cents,
            period_hash,
            cdr_batch_proofs: proofs,
            proposed_at: now,
            status: SettlementStatus::Proposed,
        };
        self.settlement_proposals.insert(proposal_id, proposal);
        self.stats.settlements_proposed = self.stats.settlements_proposed + 1;
        self.stats.zk_proofs_generated = self.stats.zk_proofs_generated + 1;
        Broadcast {
            topic: "settlement".to_string(),
            message: OperatorMessage::SettlementProposal {
                creditor,
                debtor,
                amount_cents,
                period_hash: current_period_hash(),
                nonce,
            },
        }
    }

    /// Cycles of three operators whose settlements could be netted; none are
    /// looked for yet.
    pub fn find_netting_opportunities(&self) -> (r: Vec<TriangularNetting>)
        ensures
            r@.len() == 0,
    {
        Vec::new()
    }

    /// The netting cycles a settlement round acts on: none when triangular
    /// netting is switched off, else those found.
    pub fn process_settlements(&self) -> (r: Vec<TriangularNetting>)
        ensures
            r@.len() == 0,
    {
        if !self.config.enable_triangular_netting {
            return Vec::new();
        }
        self.find_netting_opportunities()
    }

}

/// Place in the netting matrix of the home network of a record.
pub open spec fn record_slot(r: BCERecord) -> int {
    matrix_index(plmn_network(r.home_plmn@), 0)
}

/// Wholesale charges of the records whose home network has place `i`.
pub open spec fn records_charge_at(rs: Seq<BCERecord>, i: int) -> int
    decreases rs.len(),
{
    if rs.len() == 0 {
        0
    } else {
        records_charge_at(rs.drop_last(), i) + if record_slot(rs.last()) == i {
            rs.last().wholesale_charge as int
        } else {
            0
        }
    }
}

/// Wholesale charges of the records.
pub open spec fn records_charge(rs: Seq<BCERecord>) -> int
    decreases rs.len(),
{
    if rs.len() == 0 {
        0
    } else {
        records_charge(rs.drop_last()) + rs.last().wholesale_charge as int
    }
}

/// Wholesale charges of the batches' records whose home network has place
/// `i`.
pub open spec fn batches_charge_at(bs: Seq<BCEBatch>, i: int) -> int
    decreases bs.len(),
{
    if bs.len() == 0 {
        0
    } else {
        batches_charge_at(bs.drop_last(), i) + records_charge_at(bs.last().records@, i)
    }
}

/// Wholesale charges of the batches' records.
pub open spec fn batches_charge(bs: Seq<BCEBatch>) -> int
    decreases bs.len(),
{
    if bs.len() == 0 {
        0
    } else {
        batches_charge(bs.drop_last()) + records_charge(bs.last().records@)
    }
}

proof fn lemma_records_prefix(rs: Seq<BCERecord>, j: int)
    requires
        0 <= j <= rs.len(),
    ensures
        0 <= records_charge(rs.subrange(0, j)) <= records_charge(rs),
    decreases rs.len() - j,
{
    if j < rs.len() {
        lemma_records_prefix(rs, j + 1);
        assert(rs.subrange(0, j + 1).drop_last() =~= rs.subrange(0, j));
        lemma_records_nonneg(rs.subrange(0, j));
    } else {
        assert(rs.subrange(0, j) =~= rs);
        lemma_records_nonneg(rs);
    }
}

proof fn lemma_records_nonneg(rs: Seq<BCERecord>)
    ensures
        0 <= records_charge(rs),
    decreases rs.len(),
{
    if rs.len() > 0 {
        lemma_records_nonneg(rs.drop_last());
    }
}

proof fn lemma_batches_prefix(bs: Seq<BCEBatch>, k: int)
    requires
        0 <= k <= bs.len(),
    ensures
        0 <= batches_charge(bs.subrange(0, k)) <= batches_charge(bs),
    decreases bs.len() - k,
{
    if k < bs.len() {
        lemma_batches_prefix(bs, k + 1);
        assert(bs.subrange(0, k + 1).drop_last() =~= bs.subrange(0, k));
        assert(bs.subrange(0, k + 1).last() == bs[k]);
        lemma_records_nonneg(bs[k].records@);
        lemma_batches_nonneg(bs.subrange(0, k));
    } else {
        assert(bs.subrange(0, k) =~= bs);
        lemma_batches_nonneg(bs);
    }
}

proof fn lemma_batches_nonneg(bs: Seq<BCEBatch>)
    ensures
        0 <= batches_charge(bs),
    decreases bs.len(),
{
    if bs.len() > 0 {
        lemma_batches_nonneg(bs.drop_last());
        lemma_records_nonneg(bs.last().records@);
    }
}

impl BCEPipeline {
    /// Charges between the six networks of the netting matrix, by the place
    /// of the records' home network, over all pending batches; with no
    /// charge at all, the first place takes `fallback_amount`.
    pub fn calculate_bilateral_amounts(&self, fallback_amount: u64) -> (r: [u64; 6])
        requires
            batches_charge(self.pending_batches()) <= u64::MAX,
        ensures
            forall|i: int|
                0 <= i < 6 ==> r@[i] == if i == 0 && batches_charge(self.pending_batches()) == 0 {
                    fallback_amount as int
                } else {
                    batches_charge_at(self.pending_batches(), i)
                },
    {
        let entries = self.pending_bce_batches.entries();
        let ghost bs = batch_values(entries@);
        let mut acc: Vec<u64> = vec![0u64, 0u64, 0u64, 0u64, 0u64, 0u64];
        let mut k: usize = 0;
        while k < entries.len()
            invariant
                k <= entries@.len(),
                bs == batch_values(entries@),
                bs == self.pending_batches(),
                batches_charge(bs) <= u64::MAX,
                acc@.len() == 6,
                forall|i: int| 0 <= i < 6 ==> #[trigger] acc@[i] == batches_charge_at(bs.subrange(0, k as int), i),
                acc@[0] + acc@[1] + acc@[2] + acc@[3] + acc@[4] + acc@[5] == batches_charge(bs.subrange(0, k as int)),
            decreases entries@.len() - k,
        {
            let records = &entries[k].1.records;
            let ghost rs = records@;
            let ghost pre = bs.subrange(0, k as int);
            assert(bs[k as int] == entries@[k as int].1);
            proof {
                lemma_batches_prefix(bs, k + 1);
                assert(bs.subrange(0, k + 1).drop_last() =~= pre);
                assert(bs.subrange(0, k + 1).last() == bs[k as int]);
            }
            let mut j: usize = 0;
            while j < records.len()
                invariant
                    j <= rs.len(),
                    rs == records@,
                    acc@.len() == 6,
                    batches_charge(pre) + records_charge(rs) <= u64::MAX,
                    forall|i: int|
                        0 <= i < 6 ==> #[trigger] acc@[i] == batches_charge_at(pre, i) + records_charge_at(
                            rs.subrange(0, j as int),
                            i,
                        ),
                    acc@[0] + acc@[1] + acc@[2] + acc@[3] + acc@[4] + acc@[5] == batches_charge(pre) + records_charge(
                        rs.subrange(0, j as int),
                    ),
                decreases rs.len() - j,
            {
                let record = &records[j];
                let home = plmn_to_network_id(record.home_plmn.as_str());
                let visited = plmn_to_network_id(record.visited_plmn.as_str());
                let (creditor_idx, debtor_idx) = network_to_matrix_index(&home, &visited);
                proof {
                    lemma_records_prefix(rs, j + 1);
                    assert(rs.subrange(0, j + 1).drop_last() =~= rs.subrange(0, j as int));
                    assert(rs.subrange(0, j + 1).last() == rs[j as int]);
                    assert(creditor_idx as int == record_slot(rs[j as int]));
                }
                if creditor_idx < 6 && debtor_idx < 6 {
                    let updated = acc[creditor_idx] + record.wholesale_charge;
                    acc.set(creditor_idx, updated);
                }
                j = j + 1;
            }
            assert(rs.subrange(0, rs.len() as int) =~= rs);
            k = k + 1;
        }
        assert(bs.subrange(0, entries@.len() as int) =~= bs);
        let total = acc[0] + acc[1] + acc[2] + acc[3] + acc[4] + acc[5];
        if total == 0 {
            acc.set(0, fallback_amount);
        }
        [acc[0], acc[1], acc[2], acc[3], acc[4], acc[5]]
    }
}

/// Text whose hash identifies the batch of a record: its id and time,
/// separated by an underscore.
pub open spec fn record_batch_text(record_id: Seq<char>, timestamp: u64) -> Seq<char> {
    record_id + "_"@ + decimal_text(timestamp as nat)
}

/// Whether `b` is the batch holding a new record: the earlier batch of the
/// same id with the record added, its charge added and its period ending at
/// the record's time; or, with no earlier batch, a batch of that record
/// alone between the networks of its PLMN codes.
pub open spec fn batch_with_record(earlier: Option<BCEBatch>, b: BCEBatch, id: Seq<u8>, r: BCERecord) -> bool {
    match earlier {
        Some(o) => {
            &&& b == (BCEBatch {
                records: b.records,
                total_charges_cents: (o.total_charges_cents + r.wholesale_charge) as u64,
                period_end: r.timestamp,
                ..o
            })
            &&& b.records@ == o.records@.push(r)
        },
        None => {
            &&& b.batch_id@ == id
            &&& b.home_network@ == plmn_network(r.home_plmn@)
            &&& b.visited_network@ == plmn_network(r.visited_plmn@)
            &&& b.records@ == seq![r]
            &&& b.period_start == r.timestamp
            &&& b.period_end == r.timestamp
            &&& b.total_charges_cents == r.wholesale_charge
        },
    }
}

impl BCEPipeline {
    /// A record from this operator's billing system: its charge is split into
    /// proof rates (an inexact split is refused, changing nothing), and the
    /// record joins the batch identified by the hash of its id and time,
    /// between the networks of its PLMN codes. Returns the arguments of the
    /// record's privacy proof.
    pub fn process_bce_record(&mut self, record: BCERecord) -> (r: Result<CDRProofInputs>)
        requires
            record.bytes_uplink + record.bytes_downlink <= u64::MAX,
            old(self).statistics().bce_batches_processed < u64::MAX,
            old(self).statistics().zk_proofs_generated < u64::MAX,
            ({
                let id = sha256(vstd::utf8::encode_utf8(record_batch_text(record.record_id@, record.timestamp)));
                old(self).pending().contains_key(id) ==> old(self).pending()[id].total_charges_cents
                    + record.wholesale_charge <= u64::MAX
            }),
        ensures
            final(self).local() == old(self).local(),
            final(self).settings() == old(self).settings(),
            final(self).proposals() == old(self).proposals(),
            proof_inputs_result(record, r),
            r is Ok,
            r is Err ==> final(self).pending() == old(self).pending() && final(self).statistics() == old(self).statistics(),
            r is Ok ==> ({
                let id = sha256(vstd::utf8::encode_utf8(record_batch_text(record.record_id@, record.timestamp)));
                &&& final(self).pending() == old(self).pending().insert(id, final(self).pending()[id])
                &&& batch_with_record(
                    if old(self).pending().contains_key(id) {
                        Some(old(self).pending()[id])
                    } else {
                        None
                    },
                    final(self).pending()[id],
                    id,
                    record,
                )
                &&& final(self).statistics() == (PipelineStats {
                    bce_batches_processed: (old(self).statistics().bce_batches_processed + 1) as u64,
                    zk_proofs_generated: (old(self).statistics().zk_proofs_generated + 1) as u64,
                    ..old(self).statistics()
                })
            }),
    {
        let inputs = match bce_proof_inputs(&record) {
            Ok(i) => i,
            Err(e) => {
                return Err(e);
            },
        };
        let home_network = plmn_to_network_id(record.home_plmn.as_str());
        let visited_network = plmn_to_network_id(record.visited_plmn.as_str());
        proof {
            reveal_strlit("_");
        }
        let mut text = record.record_id.clone();
        text.append("_");
        push_decimal_text(&mut text, record.timestamp);
        assert(text@ =~= record_batch_text(record.record_id@, record.timestamp));
        let batch_id = hash_data(text_bytes(&text).as_slice());
        let wholesale_charge = record.wholesale_charge;
        let timestamp = record.timestamp;
        match self.pending_bce_batches.remove(&batch_id) {
            Some(b) => {
                let mut batch = b;
                batch.records.push(record);
                batch.total_charges_cents = batch.total_charges_cents + wholesale_charge;
                batch.period_end = timestamp;
                self.pending_bce_batches.insert(batch_id, batch);
            },
            None => {
                let mut records: Vec<BCERecord> = Vec::new();
                records.push(record);
                let batch = BCEBatch {
                    batch_id,
                    home_network,
                    visited_network,
                    records,
                    period_start: timestamp,
                    period_end: timestamp,
                    total_charges_cents: wholesale_charge,
                };
                assert(batch.records@ =~= seq![record]);
                self.pending_bce_batches.insert(batch_id, batch);
            },
        }
        assert(self.pending_bce_batches@ =~= old(self).pending().insert(batch_id@, self.pending_bce_batches@[batch_id@]));
        self.stats.bce_batches_processed = self.stats.bce_batches_processed + 1;
        self.stats.zk_proofs_generated = self.stats.zk_proofs_generated + 1;
        Ok(inputs)
    }
}

/// PLMN code that a sample record gives its home network: T-Mobile's or
/// Vodafone UK's by the operator's name, else T-Mobile's.
pub open spec fn sample_home_plmn(n: NetworkIdView) -> Seq<char> {
    match n {
        NetworkIdView::Operator { name, .. } => if contains_text(name, "T-Mobile"@) {
            "26201"@
        } else if contains_text(name, "Vodafone"@) {
            "23410"@
        } else {
            "26201"@
        },
        _ => "26201"@,
    }
}

/// PLMN code that a sample record gives its visited network: Vodafone UK's
/// or Orange's by the operator's name, else Vodafone UK's.
pub open spec fn sample_visited_plmn(n: NetworkIdView) -> Seq<char> {
    match n {
        NetworkIdView::Operator { name, .. } => if contains_text(name, "Vodafone"@) {
            "23410"@
        } else if contains_text(name, "Orange"@) {
            "20801"@
        } else {
            "23410"@
        },
        _ => "23410"@,
    }
}

fn sample_home_plmn_code(n: &NetworkId) -> (s: String)
    ensures
        s@ == sample_home_plmn(n@),
{
    match n {
        NetworkId::Operator { name, .. } => {
            if str_contains(name.as_str(), "T-Mobile") {
                "26201".to_string()
            } else if str_contains(name.as_str(), "Vodafone") {
                "23410".to_string()
            } else {
                "26201".to_string()
            }
        },
        _ => "26201".to_string(),
    }
}

fn sample_visited_plmn_code(n: &NetworkId) -> (s: String)
    ensures
        s@ == sample_visited_plmn(n@),
{
    match n {
        NetworkId::Operator { name, .. } => {
            if str_contains(name.as_str(), "Vodafone") {
                "23410".to_string()
            } else if str_contains(name.as_str(), "Orange") {
                "20801".to_string()
            } else {
                "23410".to_string()
            }
        },
        _ => "23410".to_string(),
    }
}

/// Whether `after` is `before` with the sample batch between `home` and
/// `visited` at `now` added, and `r` what announces it and what proves it.
#[verifier::opaque]
pub open spec fn sample_added(
    before: BCEPipeline,
    after: BCEPipeline,
    home: NetworkIdView,
    visited: NetworkIdView,
    now: u64,
    charging_id: u64,
    r: (Broadcast, CDRProofInputs),
) -> bool {
    &&& after.local() == before.local()
    &&& after.settings() == before.settings()
    &&& after.proposals() == before.proposals()
    &&& after.statistics() == before.statistics()
    &&& after.pending() == before.pending().insert( sha256(vstd::utf8::encode_utf8(sample_batch_text(home, visited, now))), after.pending()[sha256(vstd::utf8::encode_utf8(sample_batch_text(home, visited, now)))], )
    &&& ({ let b = after.pending()[sha256( vstd::utf8::encode_utf8(sample_batch_text(home, visited, now)), )]; &&& b.batch_id@ == sha256(vstd::utf8::encode_utf8(sample_batch_text(home, visited, now))) &&& b.home_network@ == home &&& b.visited_network@ == visited &&& b.records@.len() == 1 &&& b.records@[0].record_id@ == "BCE_SAMPLE_"@ + decimal_text(now as nat) &&& b.records@[0].record_type@ == "VOICE_CALL_CDR"@ &&& b.records@[0].imsi@ == "123456789012345"@ &&& b.records@[0].home_plmn@ == sample_home_plmn(home) &&& b.records@[0].visited_plmn@ == sample_visited_plmn(visited) &&& b.records@[0].session_duration == 300 &&& b.records@[0].bytes_uplink == 0 && b.records@[0].bytes_downlink == 0 &&& b.records@[0].wholesale_charge == 2500 && b.records@[0].retail_charge == 3500 &&& b.records@[0].currency@ == "EUR"@ &&& b.records@[0].timestamp == now && b.records@[0].charging_id == charging_id &&& b.period_start == now - DAY_SECONDS &&& b.period_end == now &&& b.total_charges_cents == 2500 })
    &&& r.0.topic@ == "cdr"@
    &&& r.0.message matches OperatorMessage::CDRBatchReady { batch_id, network_pair, record_count, total_amount } && batch_id@ == sha256(vstd::utf8::encode_utf8(sample_batch_text(home, visited, now))) && network_pair.0@ == home && network_pair.1@ == visited && record_count == 1 && total_amount == 2500
    &&& r.1 == (CDRProofInputs { call_minutes: 5, data_mb: 0, sms_count: 0, call_rate_cents: 500, data_rate_cents: 500, sms_rate_cents: 1, total_charges: 2500, period_hash: 2500, network_pair_hash: 5, })
}

impl BCEPipeline {
    /// Adds a sample batch between two networks at `now`: one five-minute
    /// call charged EUR 25 wholesale (EUR 35 retail), with the networks'
    /// PLMN codes and the random `charging_id`, over the last day, under the
    /// hash of `batch_`, the networks and the time. Returns its announcement
    /// on `cdr` and the arguments of its privacy proof (the charge spread
    /// evenly over the five minutes).
    pub fn add_sample_cdr_batch_at(&mut self, home_network: NetworkId, visited_network: NetworkId, now: u64, charging_id: u64) -> (r: (
        Broadcast,
        CDRProofInputs,
    ))
        requires
            now >= DAY_SECONDS,
        ensures
            sample_added(*old(self), *final(self), home_network@, visited_network@, now, charging_id, r),
    {
        proof {
            reveal_strlit("batch_");
            reveal_strlit("_");
            reveal_strlit("BCE_SAMPLE_");
        }
        let mut text = "batch_".to_string();
        text.append(network_debug_text(&home_network).as_str());
        text.append("_");
        text.append(network_debug_text(&visited_network).as_str());
        text.append("_");
        push_decimal_text(&mut text, now);
        assert(text@ =~= sample_batch_text(home_network@, visited_network@, now));
        let batch_id = hash_data(text_bytes(&text).as_slice());
        let mut record_id = "BCE_SAMPLE_".to_string();
        push_decimal_text(&mut record_id, now);
        let record = BCERecord {
            record_id,
            record_type: "VOICE_CALL_CDR".to_string(),
            imsi: "123456789012345".to_string(),
            home_plmn: sample_home_plmn_code(&home_network),
            visited_plmn: sample_visited_plmn_code(&visited_network),
            session_duration: 300,
            bytes_uplink: 0,
            bytes_downlink: 0,
            wholesale_charge: 2500,
            retail_charge: 3500,
            currency: "EUR".to_string(),
            timestamp: now,
            charging_id,
        };
        let total_charges = record.wholesale_charge;
        let call_minutes = record.session_duration / 60;
        let data_mb = (record.bytes_uplink + record.bytes_downlink) / BYTES_PER_MB;
        let total_units = call_minutes + data_mb;
        let rate_per_unit = if total_units > 0 {
            total_charges / total_units
        } else {
            1
        };
        assert(call_minutes == 5 && data_mb == 0 && total_units == 5);
        assert(total_charges / total_units == 500) by (nonlinear_arith)
            requires
                total_charges == 2500,
                total_units == 5,
        ;
        assert(rate_per_unit == 500);
        let inputs = CDRProofInputs {
            call_minutes,
            data_mb,
            sms_count: 0,
            call_rate_cents: rate_per_unit,
            data_rate_cents: rate_per_unit,
            sms_rate_cents: 1,
            total_charges,
            period_hash: total_charges,
            network_pair_hash: call_minutes + data_mb,
        };
        let mut records: Vec<BCERecord> = Vec::new();
        records.push(record);
        let batch = BCEBatch {
            batch_id,
            home_network: home_network.copy_id(),
            visited_network: visited_network.copy_id(),
            records,
            period_start: now - DAY_SECONDS,
            period_end: now,
            total_charges_cents: total_charges,
        };
        self.pending_bce_batches.insert(batch_id, batch);
        let announcement = Broadcast {
            topic: "cdr".to_string(),
            message: OperatorMessage::CDRBatchReady {
                batch_id,
                network_pair: (home_network, visited_network),
                record_count: 1,
                total_amount: total_charges,
            },
        };
        proof {
            reveal(sample_added);
        }
        (announcement, inputs)
    }
}

/// Proof arguments of the two sample billing records.
pub open spec fn sample_proof_inputs() -> Seq<CDRProofInputs> {
    seq![
        CDRProofInputs {
            call_minutes: 3,
            data_mb: 9,
            sms_count: 1,
            call_rate_cents: 200,
            data_rate_cents: 2580,
            sms_rate_cents: 2,
            total_charges: 23822,
            period_hash: 23822,
            network_pair_hash: 12,
        },
        CDRProofInputs {
            call_minutes: 5,
            data_mb: 0,
            sms_count: 1,
            call_rate_cents: 200,
            data_rate_cents: 1,
            sms_rate_cents: 17020,
            total_charges: 18020,
            period_hash: 18020,
            network_pair_hash: 5,
        },
    ]
}

/// The two sample billing records at `now`: a data session of a T-Mobile
/// Germany subscriber in Vodafone UK's network and a call of an Orange
/// France subscriber in Vodafone UK's network.
fn sample_bce_records(now: u64) -> (r: (BCERecord, BCERecord))
    ensures
        r.0.record_id@ == "BCE_20240318_TMO_DE_001247856"@,
        r.0.home_plmn@ == "26201"@,
        r.0.visited_plmn@ == "23410"@,
        r.0.session_duration == 213,
        r.0.bytes_uplink == 1247680,
        r.0.bytes_downlink == 8932456,
        r.0.wholesale_charge == 23822,
        r.0.timestamp == now,
        r.1.record_id@ == "BCE_20240318_ORG_FR_002156789"@,
        r.1.home_plmn@ == "20801"@,
        r.1.visited_plmn@ == "23415"@,
        r.1.session_duration == 347,
        r.1.bytes_uplink == 0,
        r.1.bytes_downlink == 0,
        r.1.wholesale_charge == 18020,
        r.1.timestamp == now,
{
        let data_record = BCERecord {
            record_id: "BCE_20240318_TMO_DE_001247856".to_string(),
            record_type: "DATA_SESSION_CDR".to_string(),
            imsi: "262011234567890".to_string(),
            home_plmn: "26201".to_string(),
            visited_plmn: "23410".to_string(),
            session_duration: 213,
            bytes_uplink: 1247680,
            bytes_downlink: 8932456,
            wholesale_charge: 23822,
            retail_charge: 31250,
            currency: "EUR".to_string(),
            timestamp: now,
            charging_id: 987654321,
        };
        let voice_record = BCERecord {
            record_id: "BCE_20240318_ORG_FR_002156789".to_string(),
            record_type: "VOICE_CALL_CDR".to_string(),
            imsi: "208011234567890".to_string(),
            home_plmn: "20801".to_string(),
            visited_plmn: "23415".to_string(),
            session_duration: 347,
            bytes_uplink: 0,
            bytes_downlink: 0,
            wholesale_charge: 18020,
            retail_charge: 26015,
            currency: "EUR".to_string(),
            timestamp: now,
            charging_id: 987654322,
        };
        (data_record, voice_record)
}

/// Id of the batch that the first sample billing record joins at `now`.
pub open spec fn sample_data_batch(now: u64) -> Seq<u8> {
    sha256(vstd::utf8::encode_utf8(record_batch_text("BCE_20240318_TMO_DE_001247856"@, now)))
}

/// Id of the batch that the second sample billing record joins at `now`.
pub open spec fn sample_voice_batch(now: u64) -> Seq<u8> {
    sha256(vstd::utf8::encode_utf8(record_batch_text("BCE_20240318_ORG_FR_002156789"@, now)))
}

impl BCEPipeline {
    /// Processes two sample billing records at `now`: a data session of a
    /// T-Mobile Germany subscriber in Vodafone UK's network (3 minutes, 9 MB,
    /// EUR 238.22 wholesale) and a call of an Orange France subscriber in a
    /// network unknown here (5 minutes, EUR 180.20). Returns the arguments of
    /// their privacy proofs.
    pub fn add_sample_bce_records_at(&mut self, now: u64) -> (r: Result<Vec<CDRProofInputs>>)
        requires
            old(self).statistics().bce_batches_processed + 2 <= u64::MAX,
            old(self).statistics().zk_proofs_generated + 2 <= u64::MAX,
            sample_data_batch(now) != sample_voice_batch(now) ==> {
                &&& old(self).pending().contains_key(sample_data_batch(now)) ==> old(self).pending()[sample_data_batch(
                    now,
                )].total_charges_cents + 23822 <= u64::MAX
                &&& old(self).pending().contains_key(sample_voice_batch(now)) ==> old(self).pending()[sample_voice_batch(
                    now,
                )].total_charges_cents + 18020 <= u64::MAX
            },
            sample_data_batch(now) == sample_voice_batch(now) ==> (old(self).pending().contains_key(sample_data_batch(now))
                ==> old(self).pending()[sample_data_batch(now)].total_charges_cents + 41842 <= u64::MAX),
        ensures
            final(self).local() == old(self).local(),
            final(self).settings() == old(self).settings(),
            final(self).proposals() == old(self).proposals(),
            final(self).pending().contains_key(sample_data_batch(now)),
            final(self).pending().contains_key(sample_voice_batch(now)),
            final(self).statistics() == (PipelineStats {
                bce_batches_processed: (old(self).statistics().bce_batches_processed + 2) as u64,
                zk_proofs_generated: (old(self).statistics().zk_proofs_generated + 2) as u64,
                ..old(self).statistics()
            }),
            r matches Ok(v) && v@ == sample_proof_inputs(),
    {
        let (data_record, voice_record) = sample_bce_records(now);
        assert(record_minutes(data_record) == 3 && record_mb(data_record) == 9);
        assert(bce_rates(3, 9, 23822) == (200int, 2580int, 2int));
        assert(record_minutes(voice_record) == 5 && record_mb(voice_record) == 0);
        assert(bce_rates(5, 0, 18020) == (200int, 1int, 17020int));
        let mut inputs: Vec<CDRProofInputs> = Vec::new();
        let first = match self.process_bce_record(data_record) {
            Ok(i) => i,
            Err(e) => {
                return Err(e);
            },
        };
        inputs.push(first);
        let second = match self.process_bce_record(voice_record) {
            Ok(i) => i,
            Err(e) => {
                return Err(e);
            },
        };
        inputs.push(second);
        Ok(inputs)
    }
}

impl BCEPipeline {
    /// Proposes a settlement now, with a random nonce: see
    /// `create_settlement_proposal_at`; `None`, changing nothing, when the
    /// random source fails.
    pub fn create_settlement_proposal(
        &mut self,
        creditor: NetworkId,
        debtor: NetworkId,
        amount_cents: u64,
        settlement_proof: Vec<u8>,
    ) -> (r: Option<Broadcast>)
        requires
            old(self).statistics().settlements_proposed < u64::MAX,
            old(self).statistics().zk_proofs_generated < u64::MAX,
        ensures
            r is None ==> *final(self) == *old(self),
            r is Some ==> final(self).pending() == old(self).pending(),
            r is Some ==> final(self).proposals() == old(self).proposals().insert(
                sha256(vstd::utf8::encode_utf8(proposal_text(creditor@, debtor@, amount_cents))),
                final(self).proposals()[sha256(vstd::utf8::encode_utf8(proposal_text(creditor@, debtor@, amount_cents)))],
            ),
            r matches Some(b) ==> b.topic@ == "settlement"@,
    {
        let now = now_seconds();
        let nonce = match random_u64() {
            Some(n) => n,
            None => {
                return None;
            },
        };
        Some(self.create_settlement_proposal_at(creditor, debtor, amount_cents, settlement_proof, now, nonce))
    }

    /// Adds a sample batch now, with a random charging id (see
    /// `add_sample_cdr_batch_at`); `None` when the clock reads less than a
    /// day after the epoch, so that the batch's period cannot start a day
    /// earlier, or when the random source fails.
    pub fn add_sample_cdr_batch(&mut self, home_network: NetworkId, visited_network: NetworkId) -> (r: Option<
        (Broadcast, CDRProofInputs),
    >)
        ensures
            final(self).local() == old(self).local(),
            final(self).settings() == old(self).settings(),
            final(self).proposals() == old(self).proposals(),
            final(self).statistics() == old(self).statistics(),
            r is None ==> *final(self) == *old(self),
            r matches Some(x) ==> exists|now: u64, charging_id: u64|
                now >= DAY_SECONDS && #[trigger] sample_added(*old(self), *final(self), home_network@, visited_network@, now, charging_id, x),
    {
        let now = now_seconds();
        if now < DAY_SECONDS {
            return None;
        }
        let charging_id = match random_u64() {
            Some(c) => c,
            None => {
                return None;
            },
        };
        let ghost (h, v) = (home_network@, visited_network@);
        let added = self.add_sample_cdr_batch_at(home_network, visited_network, now, charging_id);
        assert(sample_added(*old(self), *self, h, v, now, charging_id, added));
        assert(self.local() == old(self).local() && self.settings() == old(self).settings() && self.proposals() == old(
            self,
        ).proposals() && self.statistics() == old(self).statistics()) by {
            reveal(sample_added);
        }
        assert(now >= DAY_SECONDS);
        let r = Some(added);
        assert(sample_added(*old(self), *self, h, v, now, charging_id, r->Some_0));
        assert(exists|t: u64, c: u64| t >= DAY_SECONDS && #[trigger] sample_added(*old(self), *self, h, v, t, c, r->Some_0));
        r
    }
}

/// Whether processing a record stays within 64-bit words: its byte counts,
/// the charge that its rates give back, the pipeline's counts and the total
/// of the batch it joins.
pub open spec fn bce_record_fits(p: BCEPipeline, record: BCERecord) -> bool {
    &&& record.bytes_uplink + record.bytes_downlink <= u64::MAX
    &&& p.statistics().bce_batches_processed < u64::MAX
    &&& p.statistics().zk_proofs_generated < u64::MAX
    &&& ({
        let id = sha256(vstd::utf8::encode_utf8(record_batch_text(record.record_id@, record.timestamp)));
        p.pending().contains_key(id) ==> p.pending()[id].total_charges_cents + record.wholesale_charge <= u64::MAX
    })
}

impl BCEPipeline {
    /// Processes a record (see `process_bce_record`) when that stays within
    /// 64-bit words; `None`, changing nothing, when it would not.
    pub fn process_bce_record_checked(&mut self, record: BCERecord) -> (r: Option<Result<CDRProofInputs>>)
        ensures
            r is None <==> !bce_record_fits(*old(self), record),
            r is None ==> *final(self) == *old(self),
            r matches Some(res) ==> proof_inputs_result(record, res),
            final(self).local() == old(self).local(),
            final(self).settings() == old(self).settings(),
            final(self).proposals() == old(self).proposals(),
            r matches Some(Err(_)) ==> final(self).pending() == old(self).pending() && final(self).statistics() == old(
                self,
            ).statistics(),
            r matches Some(Ok(_)) ==> ({
                let id = sha256(vstd::utf8::encode_utf8(record_batch_text(record.record_id@, record.timestamp)));
                &&& final(self).pending() == old(self).pending().insert(id, final(self).pending()[id])
                &&& batch_with_record(
                    if old(self).pending().contains_key(id) {
                        Some(old(self).pending()[id])
                    } else {
                        None
                    },
                    final(self).pending()[id],
                    id,
                    record,
                )
                &&& final(self).statistics() == (PipelineStats {
                    bce_batches_processed: (old(self).statistics().bce_batches_processed + 1) as u64,
                    zk_proofs_generated: (old(self).statistics().zk_proofs_generated + 1) as u64,
                    ..old(self).statistics()
                })
            }),
    {
        let bytes = match record.bytes_uplink.checked_add(record.bytes_downlink) {
            Some(b) => b,
            None => {
                return None;
            },
        };
        let call_minutes = record.session_duration / 60;
        let data_mb = bytes / BYTES_PER_MB;
        let (r0, r1, r2) = split_charge(call_minutes, data_mb, record.wholesale_charge);
        assert((call_minutes as int) * (r0 as int) <= 0x1_0000_0000_0000_0000 * 200) by (nonlinear_arith)
            requires
                r0 <= MAX_CALL_RATE || call_minutes == 0,
                call_minutes < 0x1_0000_0000_0000_0000,
        ;
        assert((data_mb as int) * (r1 as int) <= 0x1_0000_0000_0000 * 0x1_0000_0000_0000_0000) by (nonlinear_arith)
            requires
                r1 <= 0xffff_ffff_ffff_ffff,
                data_mb < 0x1_0000_0000_0000,
        ;
        let total: u128 = (call_minutes as u128) * (r0 as u128) + (data_mb as u128) * (r1 as u128) + (r2 as u128);
        if total > u64::MAX as u128 {
            return None;
        }
        if self.stats.bce_batches_processed == u64::MAX || self.stats.zk_proofs_generated == u64::MAX {
            return None;
        }
        let mut text = record.record_id.clone();
        text.append("_");
        push_decimal_text(&mut text, record.timestamp);
        proof {
            reveal_strlit("_");
        }
        assert(text@ =~= record_batch_text(record.record_id@, record.timestamp));
        let batch_id = hash_data(text_bytes(&text).as_slice());
        match self.pending_bce_batches.get(&batch_id) {
            Some(b) => {
                if b.total_charges_cents.checked_add(record.wholesale_charge).is_none() {
                    return None;
                }
            },
            None => {},
        }
        Some(self.process_bce_record(record))
    }
}

/// Whether a pipeline has room for both sample billing records whenever
/// they come: its counts can grow by two, and no pending batch is within
/// their joint charge of the 64-bit limit.
pub open spec fn sample_room(p: BCEPipeline) -> bool {
    &&& p.statistics().bce_batches_processed + 2 <= u64::MAX
    &&& p.statistics().zk_proofs_generated + 2 <= u64::MAX
    &&& forall|k: Seq<u8>| #[trigger] p.pending().contains_key(k) ==> p.pending()[k].total_charges_cents + 41842 <= u64::MAX
}

impl BCEPipeline {
    /// Processes the two sample billing records (see
    /// `add_sample_bce_records_at`) at the present time of the system clock;
    /// `None` where a record would not stay within 64-bit words.
    pub fn add_sample_bce_records(&mut self) -> (r: Option<Result<Vec<CDRProofInputs>>>)
        ensures
            final(self).local() == old(self).local(),
            final(self).settings() == old(self).settings(),
            final(self).proposals() == old(self).proposals(),
            r matches Some(res) ==> (res matches Ok(v) && v@ == sample_proof_inputs()),
            sample_room(*old(self)) ==> r is Some,
    {
        let now = unix_now();
        let (data_record, voice_record) = sample_bce_records(now);
        assert(record_minutes(data_record) == 3 && record_mb(data_record) == 9);
        assert(bce_rates(3, 9, 23822) == (200int, 2580int, 2int));
        assert(record_minutes(voice_record) == 5 && record_mb(voice_record) == 0);
        assert(bce_rates(5, 0, 18020) == (200int, 1int, 17020int));
        let mut inputs: Vec<CDRProofInputs> = Vec::new();
        let ghost before = *self;
        let ghost first_id = sha256(vstd::utf8::encode_utf8(record_batch_text(data_record.record_id@, now)));
        let ghost second_id = sha256(vstd::utf8::encode_utf8(record_batch_text(voice_record.record_id@, now)));
        proof {
            if sample_room(before) && before.pending().contains_key(first_id) {
                assert(before.pending()[first_id].total_charges_cents + 41842 <= u64::MAX);
            }
        }
        match self.process_bce_record_checked(data_record) {
            None => {
                return None;
            },
            Some(Ok(i)) => inputs.push(i),
            Some(Err(e)) => {
                return Some(Err(e));
            },
        }
        proof {
            if sample_room(before) {
                if self.pending().contains_key(second_id) && second_id != first_id {
                    assert(before.pending().contains_key(second_id));
                    assert(before.pending()[second_id].total_charges_cents + 41842 <= u64::MAX);
                }
            }
        }
        match self.process_bce_record_checked(voice_record) {
            None => {
                return None;
            },
            Some(Ok(i)) => inputs.push(i),
            Some(Err(e)) => {
                return Some(Err(e));
            },
        }
        assert(inputs@ =~= sample_proof_inputs());
        Some(Ok(inputs))
    }
}

proof fn lemma_plmn_literals()
    ensures
        "26201"@ != "23410"@,
        "26201"@ != "20801"@,
        "26201"@ != "24001"@,
        "26201"@ != "20810"@,
        "26201"@ != "26202"@,
        "23410"@ != "20801"@,
        "23410"@ != "24001"@,
        "23410"@ != "20810"@,
        "23410"@ != "26202"@,
        "20801"@ != "24001"@,
        "20801"@ != "20810"@,
        "20801"@ != "26202"@,
        "24001"@ != "20810"@,
        "24001"@ != "26202"@,
        "20810"@ != "26202"@,
        "T-Mobile-DE"@ != "Vodafone-UK"@,
        "T-Mobile-DE"@ != "Orange-FR"@,
        "T-Mobile-DE"@ != "Telenor-NO"@,
        "T-Mobile-DE"@ != "SFR-FR"@,
        "T-Mobile-DE"@ != "Vodafone-DE"@,
        "Vodafone-UK"@ != "Orange-FR"@,
        "Vodafone-UK"@ != "Telenor-NO"@,
        "Vodafone-UK"@ != "SFR-FR"@,
        "Vodafone-UK"@ != "Vodafone-DE"@,
        "Orange-FR"@ != "Telenor-NO"@,
        "Orange-FR"@ != "SFR-FR"@,
        "Orange-FR"@ != "Vodafone-DE"@,
        "Telenor-NO"@ != "SFR-FR"@,
        "Telenor-NO"@ != "Vodafone-DE"@,
        "SFR-FR"@ != "Vodafone-DE"@,
        "Germany"@ != "UK"@,
        "Germany"@ != "France"@,
        "Germany"@ != "Norway"@,
        "UK"@ != "France"@,
        "UK"@ != "Norway"@,
        "France"@ != "Norway"@,
        "T-Mobile-DE"@[0] != 'P',
        "Vodafone-UK"@[0] != 'P',
        "Orange-FR"@[0] != 'P',
        "Telenor-NO"@[0] != 'P',
        "SFR-FR"@[0] != 'P',
        "Vodafone-DE"@[0] != 'P',
        "PLMN-"@.len() == 5,
        "PLMN-"@[0] == 'P',
{
    reveal_strlit("26201");
    reveal_strlit("23410");
    reveal_strlit("20801");
    reveal_strlit("24001");
    reveal_strlit("20810");
    reveal_strlit("26202");
    reveal_strlit("T-Mobile-DE");
    reveal_strlit("Vodafone-UK");
    reveal_strlit("Orange-FR");
    reveal_strlit("Telenor-NO");
    reveal_strlit("SFR-FR");
    reveal_strlit("Vodafone-DE");
    reveal_strlit("Germany");
    reveal_strlit("UK");
    reveal_strlit("France");
    reveal_strlit("Norway");
    reveal_strlit("PLMN-");
    reveal_strlit("Unknown");
    assert("26201"@[1] != "23410"@[1]);
    assert("26201"@[1] != "20801"@[1]);
    assert("26201"@[1] != "24001"@[1]);
    assert("26201"@[1] != "20810"@[1]);
    assert("26201"@[4] != "26202"@[4]);
    assert("23410"@[1] != "20801"@[1]);
    assert("23410"@[1] != "24001"@[1]);
    assert("23410"@[1] != "20810"@[1]);
    assert("23410"@[1] != "26202"@[1]);
    assert("20801"@[1] != "24001"@[1]);
    assert("20801"@[3] != "20810"@[3]);
    assert("20801"@[1] != "26202"@[1]);
    assert("24001"@[1] != "20810"@[1]);
    assert("24001"@[1] != "26202"@[1]);
    assert("20810"@[1] != "26202"@[1]);
    assert("T-Mobile-DE"@[0] != "Vodafone-UK"@[0]);
    assert("T-Mobile-DE"@[0] != "Orange-FR"@[0]);
    assert("T-Mobile-DE"@[1] != "Telenor-NO"@[1]);
    assert("T-Mobile-DE"@[0] != "SFR-FR"@[0]);
    assert("T-Mobile-DE"@[0] != "Vodafone-DE"@[0]);
    assert("Vodafone-UK"@[0] != "Orange-FR"@[0]);
    assert("Vodafone-UK"@[0] != "Telenor-NO"@[0]);
    assert("Vodafone-UK"@[0] != "SFR-FR"@[0]);
    assert("Vodafone-UK"@[9] != "Vodafone-DE"@[9]);
    assert("Orange-FR"@[0] != "Telenor-NO"@[0]);
    assert("Orange-FR"@[0] != "SFR-FR"@[0]);
    assert("Orange-FR"@[0] != "Vodafone-DE"@[0]);
    assert("Telenor-NO"@[0] != "SFR-FR"@[0]);
    assert("Telenor-NO"@[0] != "Vodafone-DE"@[0]);
    assert("SFR-FR"@[0] != "Vodafone-DE"@[0]);
    assert("Germany"@[0] != "UK"@[0]);
    assert("Germany"@[0] != "France"@[0]);
    assert("Germany"@[0] != "Norway"@[0]);
    assert("UK"@[0] != "France"@[0]);
    assert("UK"@[0] != "Norway"@[0]);
    assert("France"@[0] != "Norway"@[0]);
    assert("T-Mobile-DE"@[0] != 'P');
    assert("Vodafone-UK"@[0] != 'P');
    assert("Orange-FR"@[0] != 'P');
    assert("Telenor-NO"@[0] != 'P');
    assert("SFR-FR"@[0] != 'P');
    assert("Vodafone-DE"@[0] != 'P');
    assert("26201"@.len() == 5);
    assert("23410"@.len() == 5);
    assert("20801"@.len() == 5);
    assert("24001"@.len() == 5);
    assert("20810"@.len() == 5);
    assert("26202"@.len() == 5);
    assert("PLMN-"@.len() == 5 && "PLMN-"@[0] == 'P');
}

/// Whether a PLMN code is one of the six the pipeline knows.
pub open spec fn known_plmn(p: Seq<char>) -> bool {
    p == "26201"@ || p == "23410"@ || p == "20801"@ || p == "24001"@ || p == "20810"@ || p == "26202"@
}

/// The PLMN codes stand for their operators as the numbering plan assigns
/// them: 26201 T-Mobile and 26202 Vodafone in Germany, 23410 Vodafone in the
/// UK, 20801 Orange and 20810 SFR in France, 24001 Telenor in Norway. Any
/// other code stands for an operator named `PLMN-` and the code, in an
/// unknown country.
pub proof fn law_plmn_codes(p: Seq<char>)
    ensures
        plmn_network("26201"@) == (NetworkIdView::Operator { name: "T-Mobile-DE"@, country: "Germany"@ }),
        plmn_network("23410"@) == (NetworkIdView::Operator { name: "Vodafone-UK"@, country: "UK"@ }),
        plmn_network("20801"@) == (NetworkIdView::Operator { name: "Orange-FR"@, country: "France"@ }),
        plmn_network("24001"@) == (NetworkIdView::Operator { name: "Telenor-NO"@, country: "Norway"@ }),
        plmn_network("20810"@) == (NetworkIdView::Operator { name: "SFR-FR"@, country: "France"@ }),
        plmn_network("26202"@) == (NetworkIdView::Operator { name: "Vodafone-DE"@, country: "Germany"@ }),
        !known_plmn(p) ==> plmn_network(p) == (NetworkIdView::Operator { name: "PLMN-"@ + p, country: "Unknown"@ }),
{
    lemma_plmn_literals();
}

/// Distinct PLMN codes stand for distinct networks, so records of
/// different codes are never batched or netted as one network.
pub proof fn law_plmn_distinct(p: Seq<char>, q: Seq<char>)
    requires
        p != q,
    ensures
        plmn_network(p) != plmn_network(q),
{
    lemma_plmn_literals();
    if !known_plmn(p) && !known_plmn(q) {
        if plmn_network(p) == plmn_network(q) {
            assert(("PLMN-"@ + p).subrange(5, 5 + p.len() as int) =~= p);
            assert(("PLMN-"@ + q).subrange(5, 5 + q.len() as int) =~= q);
        }
    } else if !known_plmn(p) || !known_plmn(q) {
        let (u, k) = if known_plmn(p) { (q, p) } else { (p, q) };
        assert(plmn_network(u) == (NetworkIdView::Operator { name: "PLMN-"@ + u, country: "Unknown"@ }));
        assert(("PLMN-"@ + u)[0] == 'P');
        assert(plmn_network(k) matches NetworkIdView::Operator { name, .. } && name[0] != 'P');
    } else {
        assert(plmn_network(p) != plmn_network(q));
    }
}

/// The six known networks take the six places of the netting matrix in the
/// order of their codes 26201, 23410, 20801, 24001, 20810, 26202.
pub proof fn law_plmn_matrix_places()
    ensures
        matrix_index(plmn_network("26201"@), 9) == 0,
        matrix_index(plmn_network("23410"@), 9) == 1,
        matrix_index(plmn_network("20801"@), 9) == 2,
        matrix_index(plmn_network("24001"@), 9) == 3,
        matrix_index(plmn_network("20810"@), 9) == 4,
        matrix_index(plmn_network("26202"@), 9) == 5,
{
    lemma_plmn_literals();
}

/// How a charge is split among the proof's rates: calls are charged the
/// highest whole rate up to 200 cents a minute that the charge covers for
/// every minute; data then the highest whole rate per megabyte that what is
/// left covers; the message carries the rest, which is less than one more
/// cent per megabyte. With no usage at all the message carries the whole
/// charge.
pub proof fn law_rate_split_shape(cm: int, dm: int, w: int)
    requires
        cm >= 0,
        dm >= 0,
        w >= 0,
    ensures
        cm > 0 ==> bce_rates(cm, dm, w).0 <= 200,
        cm > 0 ==> cm * bce_rates(cm, dm, w).0 <= w,
        cm > 0 ==> bce_rates(cm, dm, w).0 == 200 || cm * (bce_rates(cm, dm, w).0 + 1) > w,
        dm > 0 ==> 0 <= bce_rates(cm, dm, w).2 < dm,
        dm > 0 ==> dm * bce_rates(cm, dm, w).1 + bce_rates(cm, dm, w).2 == w - (if cm > 0 {
            cm * bce_rates(cm, dm, w).0
        } else {
            0
        }),
        cm == 0 && dm == 0 ==> bce_rates(cm, dm, w).2 == w,
{
    law_rates_split_exactly(cm, dm, w);
    if cm > 0 {
        let q = w / cm;
        let cr = min_int(MAX_CALL_RATE as int, q);
        assert(cm * q <= w && w < cm * (q + 1)) by (nonlinear_arith)
            requires
                cm > 0,
                w >= 0,
                q == w / cm,
        ;
        assert(cm * cr <= cm * q) by (nonlinear_arith)
            requires
                cm > 0,
                cr <= q,
        ;
        if dm > 0 {
            let rest = w - cm * cr;
            let dr = rest / dm;
            assert(0 <= rest - dm * dr < dm) by (nonlinear_arith)
                requires
                    dm > 0,
                    rest >= 0,
                    dr == rest / dm,
            ;
        }
    } else if dm > 0 {
        let dr = w / dm;
        assert(0 <= w - dm * dr < dm) by (nonlinear_arith)
            requires
                dm > 0,
                w >= 0,
                dr == w / dm,
        ;
    }
}

/// Sum of the wholesale charges of records.
pub open spec fn charges_sum(rs: Seq<BCERecord>) -> int
    decreases rs.len(),
{
    if rs.len() == 0 {
        0
    } else {
        charges_sum(rs.drop_last()) + rs.last().wholesale_charge
    }
}

/// A batch's total is the sum of its records' wholesale charges: a new batch
/// starts with its one record's charge, and adding a record to a batch whose
/// total was its records' sum keeps it so. A batch is homed at the network
/// of its first record's home PLMN code and visited at that of its visited
/// code, and its period runs from its first record's time to its latest.
pub proof fn law_batch_totals(earlier: Option<BCEBatch>, b: BCEBatch, id: Seq<u8>, r: BCERecord)
    requires
        batch_with_record(earlier, b, id, r),
        earlier matches Some(o) ==> o.total_charges_cents == charges_sum(o.records@)
            && o.total_charges_cents + r.wholesale_charge <= u64::MAX,
    ensures
        b.total_charges_cents == charges_sum(b.records@),
        b.records@.last() == r,
        b.period_end == r.timestamp,
        earlier is None ==> b.home_network@ == plmn_network(r.home_plmn@) && b.visited_network@ == plmn_network(
            r.visited_plmn@,
        ) && b.period_start == r.timestamp,
        earlier matches Some(o) ==> b.home_network == o.home_network && b.visited_network == o.visited_network
            && b.period_start == o.period_start && b.records@.len() == o.records@.len() + 1,
{
    match earlier {
        Some(o) => {
            assert(o.total_charges_cents == charges_sum(o.records@));
            assert(o.total_charges_cents + r.wholesale_charge <= u64::MAX);
            assert(b.records@ == o.records@.push(r));
            assert(b.records@.drop_last() =~= o.records@);
            assert(b.records@.last() == r);
            assert(charges_sum(b.records@) == charges_sum(o.records@) + r.wholesale_charge);
            assert(b.total_charges_cents == (o.total_charges_cents + r.wholesale_charge) as u64);
            assert(b.total_charges_cents == charges_sum(b.records@));
        },
        None => {
            assert(b.records@.drop_last() =~= Seq::<BCERecord>::empty());
            assert(charges_sum(Seq::<BCERecord>::empty()) == 0);
            assert(charges_sum(b.records@) == r.wholesale_charge);
        },
    }
}

} // verus!
