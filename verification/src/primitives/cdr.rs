//! Call detail record batches, settlement arithmetic and operator names.
use vstd::prelude::*;
use vstd::string::StringSliceAdditionalSpecFns;
use crate::encoding::{decimal, push_decimal, push_str};
use crate::primitives::primitives::{hash_data, sha256, Blake2bHash};

verus! {

/// Processing status of a record batch.
#[derive(Debug, Clone, Copy, PartialEq, Eq, Structural)]
pub enum CDRStatus {
    Pending,
    Validated,
    Settled,
    Disputed,
    Rejected,
}

/// Reasons a record batch or settlement is refused.
#[derive(Debug, Clone, Copy, PartialEq, Eq, Structural)]
pub enum CDRValidationError {
    InvalidTimestamp,
    UnknownNetwork,
    InvalidCharges,
    MissingRequiredFields,
    EncryptionFailure,
    ProofVerificationFailure,
}

/// A batch of records between a home and a visited network, for settlement.
#[derive(Debug, Clone)]
pub struct CDRBatch {
    pub batch_id: Blake2bHash,
    pub home_network: String,
    pub visited_network: String,
    pub period_start: u64,
    pub period_end: u64,
    pub total_records: u32,
    /// In cents.
    pub total_charges: u64,
    pub status: CDRStatus,
}

/// Bytes hashed for a batch identifier: `home:visited:start:end`.
pub open spec fn batch_key(home: Seq<char>, visited: Seq<char>, start: u64, end: u64) -> Seq<u8> {
    vstd::utf8::encode_utf8(home) + seq![58u8] + vstd::utf8::encode_utf8(visited) + seq![58u8]
        + decimal(start as nat) + seq![58u8] + decimal(end as nat)
}

impl CDRBatch {
    /// A new pending batch with no records; its identifier is the hash of
    /// `home:visited:start:end`.
    pub fn new(home_network: String, visited_network: String, period_start: u64, period_end: u64) -> (b: Self)
        ensures
            b.batch_id@ == sha256(batch_key(home_network@, visited_network@, period_start, period_end)),
            b.home_network@ == home_network@,
            b.visited_network@ == visited_network@,
            b.period_start == period_start,
            b.period_end == period_end,
            b.total_records == 0,
            b.total_charges == 0,
            b.status == CDRStatus::Pending,
    {
        let mut key: Vec<u8> = Vec::new();
        push_str(&mut key, home_network.as_str());
        key.push(58u8);
        push_str(&mut key, visited_network.as_str());
        key.push(58u8);
        push_decimal(&mut key, period_start);
        key.push(58u8);
        push_decimal(&mut key, period_end);
        assert(key@ =~= batch_key(home_network@, visited_network@, period_start, period_end));
        let batch_id = hash_data(key.as_slice());
        CDRBatch {
            batch_id,
            home_network,
            visited_network,
            period_start,
            period_end,
            total_records: 0,
            total_charges: 0,
            status: CDRStatus::Pending,
        }
    }

    /// Counts one more record and adds its charges.
    pub fn add_record(&mut self, charges: u64)
        requires
            old(self).total_records < u32::MAX,
            old(self).total_charges + charges <= u64::MAX,
        ensures
            final(self).total_records == old(self).total_records + 1,
            final(self).total_charges == old(self).total_charges + charges,
            final(self).batch_id == old(self).batch_id,
            final(self).home_network == old(self).home_network,
            final(self).visited_network == old(self).visited_network,
            final(self).period_start == old(self).period_start,
            final(self).period_end == old(self).period_end,
            final(self).status == old(self).status,
    {
        self.total_records = self.total_records + 1;
        self.total_charges = self.total_charges + charges;
    }

    pub fn mark_validated(&mut self)
        ensures
            *final(self) == (CDRBatch { status: CDRStatus::Validated, ..*old(self) }),
    {
        self.status = CDRStatus::Validated;
    }

    pub fn mark_settled(&mut self)
        ensures
            *final(self) == (CDRBatch { status: CDRStatus::Settled, ..*old(self) }),
    {
        self.status = CDRStatus::Settled;
    }

    /// A batch is ready once validated and holding at least one record.
    pub fn is_ready_for_settlement(&self) -> (r: bool)
        ensures
            r == (self.status == CDRStatus::Validated && self.total_records > 0),
    {
        self.status == CDRStatus::Validated && self.total_records > 0
    }
}

/// `amount * rate / 100`, the converted amount for a rate given in hundredths.
pub open spec fn converted_amount(amount: u64, rate: u32) -> int {
    (amount as int * rate as int) / 100
}

/// Settlement amount in the target currency: unchanged when both currencies
/// are the same, else converted at `exchange_rate / 100`; refused when the
/// converted amount exceeds `u64::MAX`.
pub fn calculate_settlement_amount(
    base_amount: u64,
    exchange_rate: u32,
    base_currency: &str,
    target_currency: &str,
) -> (r: core::result::Result<u64, CDRValidationError>)
    ensures
        base_currency@ == target_currency@ ==> r == Ok::<u64, CDRValidationError>(base_amount),
        base_currency@ != target_currency@ ==> (match r {
            Ok(v) => v == converted_amount(base_amount, exchange_rate),
            Err(e) => e == CDRValidationError::InvalidCharges && converted_amount(
                base_amount,
                exchange_rate,
            ) > u64::MAX,
        }),
        base_currency@ != target_currency@ ==> (r is Ok <==> converted_amount(base_amount, exchange_rate) <= u64::MAX),
{
    if crate::encoding::str_eq(base_currency, target_currency) {
        return Ok(base_amount);
    }
    assert(base_amount as int * exchange_rate as int <= 0xffff_ffff_ffff_ffff * 0xffff_ffffint) by (nonlinear_arith)
        requires base_amount <= 0xffff_ffff_ffff_ffffu64, exchange_rate <= 0xffff_ffffu32;
    let settlement: u128 = (base_amount as u128 * exchange_rate as u128) / 100;
    if settlement > u64::MAX as u128 {
        return Err(CDRValidationError::InvalidCharges);
    }
    Ok(settlement as u64)
}

/// Whether `settlement_amount` is the conversion of `cdr_total` at
/// `exchange_rate / 100`; refused when that conversion exceeds `u64::MAX`.
pub fn validate_settlement(cdr_total: u64, exchange_rate: u32, settlement_amount: u64) -> (r: core::result::Result<bool, CDRValidationError>)
    ensures
        converted_amount(cdr_total, exchange_rate) <= u64::MAX ==> r == Ok::<bool, CDRValidationError>(
            settlement_amount == converted_amount(cdr_total, exchange_rate),
        ),
        converted_amount(cdr_total, exchange_rate) > u64::MAX ==> r == Err::<bool, CDRValidationError>(
            CDRValidationError::InvalidCharges,
        ),
{
    proof {
        reveal_strlit("base");
        reveal_strlit("target");
        assert("base"@ != "target"@) by {
            assert("base"@[0] != "target"@[0]);
        }
    }
    let expected = calculate_settlement_amount(cdr_total, exchange_rate, "base", "target")?;
    Ok(settlement_amount == expected)
}

/// Names of the consortium's operator networks.
pub open spec fn known_networks() -> Seq<Seq<char>> {
    seq![
        "T-Mobile-DE"@,
        "Vodafone-UK"@,
        "Orange-FR"@,
        "Telefonica-ES"@,
        "TIM-IT"@,
        "KPN-NL"@,
        "Telenor-NO"@,
        "Sunrise-CH"@,
        "Three-UK"@,
        "Bouygues-FR"@,
    ]
}

/// The consortium's operator networks, each once.
pub fn get_known_networks() -> (v: Vec<String>)
    ensures
        v@.map_values(|s: String| s@) == known_networks(),
{
    let mut v: Vec<String> = Vec::new();
    v.push("T-Mobile-DE".to_string());
    v.push("Vodafone-UK".to_string());
    v.push("Orange-FR".to_string());
    v.push("Telefonica-ES".to_string());
    v.push("TIM-IT".to_string());
    v.push("KPN-NL".to_string());
    v.push("Telenor-NO".to_string());
    v.push("Sunrise-CH".to_string());
    v.push("Three-UK".to_string());
    v.push("Bouygues-FR".to_string());
    assert(v@.map_values(|s: String| s@) =~= known_networks());
    v
}

/// Accepts the consortium's operator networks and refuses every other name.
pub fn validate_network_id(network_id: &str) -> (r: core::result::Result<(), CDRValidationError>)
    ensures
        r is Ok <==> known_networks().contains(network_id@),
        r is Err ==> r == Err::<(), CDRValidationError>(CDRValidationError::UnknownNetwork),
{
    let known = get_known_networks();
    let mut i: usize = 0;
    while i < known.len()
        invariant
            0 <= i <= known@.len(),
            known@.map_values(|s: String| s@) == known_networks(),
            forall|j: int| 0 <= j < i ==> known_networks()[j] != network_id@,
        decreases known@.len() - i,
    {
        if crate::encoding::str_eq(known[i].as_str(), network_id) {
            assert(known_networks()[i as int] == network_id@);
            return Ok(());
        }
        assert(known_networks()[i as int] == known@[i as int]@);
        i = i + 1;
    }
    Err(CDRValidationError::UnknownNetwork)
}

/// Part of a network name after its last `-` (the whole name when it has none).
pub open spec fn country_part(s: Seq<char>) -> Seq<char> {
    if exists|i: int| 0 <= i < s.len() && s[i] == '-' {
        let p = choose|i: int| 0 <= i < s.len() && s[i] == '-' && forall|j: int| i < j < s.len() ==> s[j] != '-';
        s.subrange(p + 1, s.len() as int)
    } else {
        s
    }
}

fn country_of(s: &str) -> (c: &str)
    ensures
        c@ == country_part(s@),
{
    let n = s.unicode_len();
    let mut i: usize = n;
    while i > 0
        invariant
            0 <= i <= n,
            n == s@.len(),
            forall|j: int| i <= j < n ==> s@[j] != '-',
        decreases i,
    {
        if s.get_char(i - 1) == '-' {
            proof {
                let p = (i - 1) as int;
                assert(0 <= p < s@.len() && s@[p] == '-' && forall|j: int| p < j < s@.len() ==> s@[j] != '-');
                let q = choose|k: int| 0 <= k < s@.len() && s@[k] == '-' && forall|j: int| k < j < s@.len() ==> s@[j] != '-';
                if q < p {
                    assert(s@[p] != '-');
                }
                if q > p {
                    assert(s@[q] != '-');
                }
            }
            return s.substring_char(i, n);
        }
        i = i - 1;
    }
    s
}

/// Roaming needs two different networks whose country parts differ.
pub fn is_roaming_scenario(home_network: &str, visited_network: &str) -> (r: bool)
    ensures
        r == (home_network@ != visited_network@ && country_part(home_network@) != country_part(
            visited_network@,
        )),
{
    if crate::encoding::str_eq(home_network, visited_network) {
        return false;
    }
    let home_country = country_of(home_network);
    let visited_country = country_of(visited_network);
    !crate::encoding::str_eq(home_country, visited_country)
}

/// Converting at a rate given in hundredths: a rate of 100 keeps the
/// amount; the result is the amount times the rate over 100, rounded down
/// (so within one unit below the exact value); it grows with the amount and
/// with the rate, and a zero rate or amount gives zero.
pub proof fn law_conversion(amount: u64, rate: u32, more: u64, higher: u32)
    ensures
        converted_amount(amount, 100) == amount,
        converted_amount(amount, rate) * 100 <= amount * rate < (converted_amount(amount, rate) + 1) * 100,
        amount <= more ==> converted_amount(amount, rate) <= converted_amount(more, rate),
        rate <= higher ==> converted_amount(amount, rate) <= converted_amount(amount, higher),
        converted_amount(amount, 0) == 0,
        converted_amount(0, rate) == 0,
{
    assert(amount as int * rate as int >= 0) by (nonlinear_arith)
        requires
            amount >= 0,
            rate >= 0,
    ;
    if amount <= more {
        assert(amount as int * rate as int <= more as int * rate as int) by (nonlinear_arith)
            requires
                amount <= more,
                rate >= 0,
        ;
    }
    if rate <= higher {
        assert(amount as int * rate as int <= amount as int * higher as int) by (nonlinear_arith)
            requires
                rate <= higher,
                amount >= 0,
        ;
    }
}

} // verus!
