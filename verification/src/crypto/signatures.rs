//! Multi-signatures of validators, signatures of network operators and of
//! settlements, and the collection of validators' signatures until a
//! threshold is met.
use vstd::prelude::*;
use crate::clock::unix_now;
use crate::collections::VecMap;
use crate::crypto::bls::{bls_check, sig_aggregate_result, pk_aggregate_result};
use crate::crypto::{
    crypto_outcome, public_key_bytes, signature_bytes, AggregatePublicKey, AggregateSignature, CryptoError, PublicKey,
    Result, Signature,
};
use crate::encoding::{decimal_text, push_decimal_text};
use crate::primitives::primitives::{hash_data, hash_eq, sha256, Blake2bHash};

verus! {

/// How many of the signers must sign.
#[derive(Debug, Clone, Copy)]
pub struct ThresholdConfig {
    /// Signatures required.
    pub threshold: usize,
    /// Signers there are.
    pub total_signers: usize,
}

impl ThresholdConfig {
    /// A threshold between 1 and the number of signers; refused otherwise.
    pub fn new(threshold: usize, total_signers: usize) -> (r: Result<Self>)
        ensures
            (threshold == 0 || threshold > total_signers) ==> crypto_outcome(r) == Err::<Self, Seq<char>>(
                "Signature verification failed: "@ + "Invalid threshold configuration"@,
            ),
            !(threshold == 0 || threshold > total_signers) ==> r == Ok::<Self, CryptoError>(
                ThresholdConfig { threshold, total_signers },
            ),
    {
        if threshold == 0 || threshold > total_signers {
            return Err(CryptoError::VerificationFailed("Invalid threshold configuration".to_string()));
        }
        Ok(ThresholdConfig { threshold, total_signers })
    }

    /// Whether `signature_count` signatures meet the threshold.
    pub fn meets_threshold(&self, signature_count: usize) -> (r: bool)
        ensures
            r == (signature_count >= self.threshold),
    {
        signature_count >= self.threshold
    }
}

/// Whether the bitmap marks validator `v`: bit `v % 8` of byte `v / 8`.
pub open spec fn has_bit(bitmap: Seq<u8>, v: int) -> bool {
    &&& 0 <= v
    &&& v / 8 < bitmap.len()
    &&& bitmap[v / 8] & (1u8 << ((v % 8) as u8)) != 0
}

proof fn lemma_set_bit(x: u8, i: u8, j: u8)
    requires
        i < 8,
        j < 8,
    ensures
        (x | (1u8 << i)) & (1u8 << j) != 0 <==> (x & (1u8 << j) != 0 || i == j),
{
    assert((x | (1u8 << i)) & (1u8 << j) != 0 <==> (x & (1u8 << j) != 0 || i == j)) by (bit_vector)
        requires
            i < 8,
            j < 8,
    ;
}

proof fn lemma_zero_bits(j: u8)
    requires
        j < 8,
    ensures
        0u8 & (1u8 << j) == 0,
{
    assert(0u8 & (1u8 << j) == 0) by (bit_vector);
}

proof fn lemma_push_contains<A>(s: Seq<A>, x: A, y: A)
    ensures
        s.push(x).contains(y) <==> (s.contains(y) || x == y),
{
    if s.push(x).contains(y) {
        let w = choose|w: int| 0 <= w < s.push(x).len() && s.push(x)[w] == y;
        if w < s.len() {
            assert(s[w] == y);
        }
    }
    if s.contains(y) {
        let w = choose|w: int| 0 <= w < s.len() && s[w] == y;
        assert(s.push(x)[w] == y);
    }
    if x == y {
        assert(s.push(x)[s.len() as int] == y);
    }
}

/// Indices of the signers of a list of (validator index, signature).
pub open spec fn signer_indices(s: Seq<(usize, Signature)>) -> Seq<usize> {
    s.map_values(|p: (usize, Signature)| p.0)
}

/// Signatures of a list of (validator index, signature).
pub open spec fn signer_signatures(s: Seq<(usize, Signature)>) -> Seq<Signature> {
    s.map_values(|p: (usize, Signature)| p.1)
}

/// Number of different values in a list.
pub open spec fn distinct_count(s: Seq<usize>) -> nat
    decreases s.len(),
{
    if s.len() == 0 {
        0
    } else {
        distinct_count(s.drop_last()) + if s.drop_last().contains(s.last()) {
            0nat
        } else {
            1nat
        }
    }
}

proof fn lemma_distinct_count_set(s: Seq<usize>)
    ensures
        s.to_set().finite(),
        distinct_count(s) == s.to_set().len(),
    decreases s.len(),
{
    if s.len() == 0 {
        assert(s.to_set() =~= Set::<usize>::empty());
    } else {
        let p = s.drop_last();
        lemma_distinct_count_set(p);
        assert(s.to_set() =~= p.to_set().insert(s.last())) by {
            assert forall|v: usize| s.contains(v) <==> (p.contains(v) || v == s.last()) by {
                if s.contains(v) {
                    let i = choose|i: int| 0 <= i < s.len() && s[i] == v;
                    if i < s.len() - 1 {
                        assert(p[i] == v);
                    }
                }
                if p.contains(v) {
                    let i = choose|i: int| 0 <= i < p.len() && p[i] == v;
                    assert(s[i] == v);
                }
                if v == s.last() {
                    assert(s[s.len() - 1] == v);
                }
            }
        }
        assert(p.contains(s.last()) <==> p.to_set().contains(s.last()));
    }
}

/// A multi-signature's signer count is the number of signers that its
/// bitmap lists: for signatures `sigs`, a list in increasing order holding
/// exactly their validator indices (as `get_signers` gives for the bitmap
/// that `MultiSignature::create` makes) is as long as the count `create`
/// records.
pub proof fn law_signer_count_is_signers(sigs: Seq<(usize, Signature)>, signers: Seq<usize>)
    requires
        forall|i: int, j: int| 0 <= i < j < signers.len() ==> signers[i] < signers[j],
        forall|v: usize| signers.contains(v) <==> signer_indices(sigs).contains(v),
    ensures
        signers.len() == distinct_count(signer_indices(sigs)),
{
    lemma_distinct_count_set(signer_indices(sigs));
    assert(signers.no_duplicates());
    signers.unique_seq_to_set();
    assert(signers.to_set() =~= signer_indices(sigs).to_set());
}

/// Whether every index is below `total`.
pub open spec fn all_below(s: Seq<usize>, total: usize) -> bool {
    forall|j: int| 0 <= j < s.len() ==> s[j] < total
}

/// Position of the first index not below `total`.
pub open spec fn first_not_below(s: Seq<usize>, total: usize) -> int {
    choose|k: int| 0 <= k < s.len() && s[k] >= total && forall|j: int| 0 <= j < k ==> s[j] < total
}

/// Message of an index outside the validator set.
pub open spec fn out_of_bounds_message(idx: usize) -> Seq<char> {
    "Aggregation failed: "@ + ("Validator index "@ + decimal_text(idx as nat) + " out of bounds"@)
}

/// The public keys the bitmap marks, in index order.
pub open spec fn marked_keys(keys: Seq<PublicKey>, bitmap: Seq<u8>) -> Seq<PublicKey>
    decreases keys.len(),
{
    if keys.len() == 0 {
        Seq::empty()
    } else if has_bit(bitmap, keys.len() - 1) {
        marked_keys(keys.drop_last(), bitmap).push(keys.last())
    } else {
        marked_keys(keys.drop_last(), bitmap)
    }
}

/// Whether `r` is what `MultiSignature::create` gives for these signatures:
/// none is refused; then the signatures must aggregate; then every index
/// must be below `total`; the bitmap then marks exactly the signers.
pub open spec fn creates(sigs: Seq<(usize, Signature)>, message: Seq<u8>, total: usize, r: Result<MultiSignature>) -> bool {
    if sigs.len() == 0 {
        crypto_outcome(r) == Err::<MultiSignature, Seq<char>>("Aggregation failed: "@ + "No signatures to aggregate"@)
    } else {
        match sig_aggregate_result(signature_bytes(signer_signatures(sigs))) {
            Err(m) => crypto_outcome(r) == Err::<MultiSignature, Seq<char>>("Aggregation failed: "@ + m),
            Ok(a) => if !all_below(signer_indices(sigs), total) {
                crypto_outcome(r) == Err::<MultiSignature, Seq<char>>(
                    out_of_bounds_message(signer_indices(sigs)[first_not_below(signer_indices(sigs), total)]),
                )
            } else {
                r matches Ok(ms) && {
                    &&& ms.signature.signature.bytes() == a
                    &&& ms.signer_bitmap@.len() == (total + 7) / 8
                    &&& forall|v: usize| has_bit(ms.signer_bitmap@, v as int) <==> signer_indices(sigs).contains(v)
                    &&& ms.signer_count == distinct_count(signer_indices(sigs))
                    &&& ms.message_hash@ == sha256(message)
                }
            },
        }
    }
}

/// An aggregate signature of validators with the bitmap of who signed.
#[derive(Debug, Clone)]
pub struct MultiSignature {
    pub signature: AggregateSignature,
    pub signer_bitmap: Vec<u8>,
    pub signer_count: usize,
    pub message_hash: Blake2bHash,
}

impl MultiSignature {
    /// Aggregates the signatures of the given validators on `message`.
    /// Refused when there is none, when they do not aggregate, or when an
    /// index is outside the validator set.
    pub fn create(signatures: &[(usize, Signature)], message: &[u8], total_validators: usize) -> (r: Result<Self>)
        requires
            total_validators <= usize::MAX - 7,
        ensures
            creates(signatures@, message@, total_validators, r),
    {
        if signatures.len() == 0 {
            return Err(CryptoError::AggregationFailed("No signatures to aggregate".to_string()));
        }
        let message_hash = hash_data(message);
        let mut sigs: Vec<Signature> = Vec::new();
        let mut i: usize = 0;
        while i < signatures.len()
            invariant
                0 <= i <= signatures@.len(),
                sigs@.len() == i,
                forall|j: int| 0 <= j < i ==> (#[trigger] sigs@[j]).bytes() == signatures@[j].1.bytes(),
            decreases signatures@.len() - i,
        {
            sigs.push(signatures[i].1.copy_sig());
            i = i + 1;
        }
        assert(signature_bytes(sigs@) =~= signature_bytes(signer_signatures(signatures@)));
        let signature = AggregateSignature::aggregate(sigs.as_slice())?;
        let n_bytes = (total_validators + 7) / 8;
        let mut signer_bitmap: Vec<u8> = Vec::new();
        let mut b: usize = 0;
        while b < n_bytes
            invariant
                0 <= b <= n_bytes,
                signer_bitmap@.len() == b,
                forall|j: int| 0 <= j < b ==> signer_bitmap@[j] == 0,
            decreases n_bytes - b,
        {
            signer_bitmap.push(0);
            b = b + 1;
        }
        let ghost idx = signer_indices(signatures@);
        proof {
            assert forall|v: usize| !has_bit(signer_bitmap@, v as int) by {
                if (v as int) / 8 < signer_bitmap@.len() {
                    lemma_zero_bits((v % 8) as u8);
                }
            }
            assert(idx.subrange(0, 0) =~= Seq::<usize>::empty());
        }
        let mut k: usize = 0;
        let mut count: usize = 0;
        while k < signatures.len()
            invariant
                0 <= k <= signatures@.len(),
                count == distinct_count(idx.subrange(0, k as int)),
                count <= k,
                idx == signer_indices(signatures@),
                total_validators <= usize::MAX - 7,
                signer_bitmap@.len() == (total_validators + 7) / 8,
                forall|j: int| 0 <= j < k ==> idx[j] < total_validators,
                forall|v: usize| has_bit(signer_bitmap@, v as int) <==> idx.subrange(0, k as int).contains(v),
                signatures@.len() > 0,
                sig_aggregate_result(signature_bytes(signer_signatures(signatures@))) == Ok::<Seq<u8>, Seq<char>>(
                    signature.signature.bytes(),
                ),
            decreases signatures@.len() - k,
        {
            let validator_index = signatures[k].0;
            if validator_index >= total_validators {
                let mut m = "Validator index ".to_string();
                push_decimal_text(&mut m, validator_index as u64);
                m.append(" out of bounds");
                proof {
                    let f = first_not_below(idx, total_validators);
                    assert(0 <= k < idx.len() && idx[k as int] >= total_validators && forall|j: int| 0 <= j < k ==> idx[j] < total_validators);
                    assert(f == k) by {
                        if f < k {
                            assert(idx[f] < total_validators);
                        } else if f > k {
                            assert(idx[k as int] < total_validators);
                        }
                    }
                }
                return Err(CryptoError::AggregationFailed(m));
            }
            let byte_index = validator_index / 8;
            let bit_index = (validator_index % 8) as u8;
            let old_byte = signer_bitmap[byte_index];
            let ghost before = signer_bitmap@;
            let seen = (old_byte & (1u8 << bit_index)) != 0;
            proof {
                assert(idx.subrange(0, k + 1) =~= idx.subrange(0, k as int).push(validator_index));
                assert(idx[k as int] == validator_index);
                assert(has_bit(before, validator_index as int) == seen);
                assert(idx.subrange(0, k + 1).drop_last() =~= idx.subrange(0, k as int));
            }
            if !seen {
                count = count + 1;
            }
            signer_bitmap.set(byte_index, old_byte | (1u8 << bit_index));
            proof {
                assert forall|v: usize| has_bit(signer_bitmap@, v as int) <==> idx.subrange(0, k + 1).contains(v) by {
                    lemma_push_contains(idx.subrange(0, k as int), validator_index, v);
                    let j: u8 = ((v as int) % 8) as u8;
                    if (v as int) / 8 == byte_index as int {
                        lemma_set_bit(old_byte, bit_index, j);
                        assert(signer_bitmap@[byte_index as int] == old_byte | (1u8 << bit_index));
                        assert(before[byte_index as int] == old_byte);
                        assert(has_bit(signer_bitmap@, v as int) <==> (old_byte & (1u8 << j) != 0 || bit_index == j));
                        assert(has_bit(before, v as int) <==> old_byte & (1u8 << j) != 0);
                        assert((bit_index == j) <==> v == validator_index);
                    } else {
                        assert(v != validator_index);
                        if (v as int) / 8 < signer_bitmap@.len() {
                            assert(signer_bitmap@[(v as int) / 8] == before[(v as int) / 8]);
                        }
                        assert(has_bit(signer_bitmap@, v as int) == has_bit(before, v as int));
                    }
                }
            }
            k = k + 1;
        }
        proof {
            assert(idx.subrange(0, idx.len() as int) =~= idx);
        }
        Ok(MultiSignature { signature, signer_bitmap, signer_count: count, message_hash })
    }

    /// Whether the validator at `validator_index` signed.
    pub fn is_signer(&self, validator_index: usize) -> (r: bool)
        ensures
            r == has_bit(self.signer_bitmap@, validator_index as int),
    {
        let byte_index = validator_index / 8;
        let bit_index = (validator_index % 8) as u8;
        if byte_index >= self.signer_bitmap.len() {
            return false;
        }
        (self.signer_bitmap[byte_index] & (1u8 << bit_index)) != 0
    }

    /// Indices of the validators that signed, in increasing order.
    pub fn get_signers(&self) -> (r: Vec<usize>)
        ensures
            forall|i: int, j: int| 0 <= i < j < r@.len() ==> r@[i] < r@[j],
            forall|v: usize| r@.contains(v) <==> has_bit(self.signer_bitmap@, v as int),
    {
        proof {
            assert(usize::MAX == 0xffff_ffff || usize::MAX == 0xffff_ffff_ffff_ffff);
        }
        let most: usize = usize::MAX / 8 + 1;
        let limit = if self.signer_bitmap.len() < most {
            self.signer_bitmap.len()
        } else {
            most
        };
        let mut signers: Vec<usize> = Vec::new();
        let mut byte_index: usize = 0;
        while byte_index < limit
            invariant
                0 <= byte_index <= limit,
                limit <= self.signer_bitmap@.len(),
                limit <= usize::MAX / 8 + 1,
                limit == self.signer_bitmap@.len() || limit == usize::MAX / 8 + 1,
                usize::MAX == 0xffff_ffff || usize::MAX == 0xffff_ffff_ffff_ffff,
                forall|i: int, j: int| 0 <= i < j < signers@.len() ==> signers@[i] < signers@[j],
                forall|i: int| 0 <= i < signers@.len() ==> signers@[i] < 8 * byte_index,
                forall|v: usize| signers@.contains(v) <==> (v < 8 * byte_index && has_bit(self.signer_bitmap@, v as int)),
            decreases limit - byte_index,
        {
            let mut bit_index: usize = 0;
            while bit_index < 8
                invariant
                    0 <= byte_index < limit,
                    limit <= self.signer_bitmap@.len(),
                    limit <= usize::MAX / 8 + 1,
                    usize::MAX == 0xffff_ffff || usize::MAX == 0xffff_ffff_ffff_ffff,
                    0 <= bit_index <= 8,
                    forall|i: int, j: int| 0 <= i < j < signers@.len() ==> signers@[i] < signers@[j],
                    forall|i: int| 0 <= i < signers@.len() ==> signers@[i] < 8 * byte_index + bit_index,
                    forall|v: usize| signers@.contains(v) <==> (v < 8 * byte_index + bit_index && has_bit(
                        self.signer_bitmap@,
                        v as int,
                    )),
                decreases 8 - bit_index,
            {
                let validator_index = byte_index * 8 + bit_index;
                let ghost before = signers@;
                if self.is_signer(validator_index) {
                    signers.push(validator_index);
                }
                proof {
                    assert forall|v: usize| signers@.contains(v) <==> (v < 8 * byte_index + bit_index + 1 && has_bit(
                        self.signer_bitmap@,
                        v as int,
                    )) by {
                        if has_bit(self.signer_bitmap@, validator_index as int) {
                            lemma_push_contains(before, validator_index, v);
                        }
                    }
                }
                bit_index = bit_index + 1;
            }
            byte_index = byte_index + 1;
        }
        proof {
            assert forall|v: usize| has_bit(self.signer_bitmap@, v as int) implies v < 8 * byte_index by {
                assert((v as int) / 8 <= usize::MAX / 8);
            }
        }
        signers
    }

    /// Checks the multi-signature: the message must be the one signed, the
    /// signers must meet the threshold, the bitmap must mark exactly that many
    /// of the keys, and the aggregate must verify under their aggregate key.
    pub fn verify(&self, validator_public_keys: &[PublicKey], message: &[u8], threshold_config: &ThresholdConfig) -> (r: Result<bool>)
        ensures
            sha256(message@) != self.message_hash@ ==> r == Ok::<bool, CryptoError>(false),
            sha256(message@) == self.message_hash@ && self.signer_count < threshold_config.threshold ==> r == Ok::<
                bool,
                CryptoError,
            >(false),
            sha256(message@) == self.message_hash@ && self.signer_count >= threshold_config.threshold ==> {
                let keys = marked_keys(validator_public_keys@, self.signer_bitmap@);
                if keys.len() != self.signer_count {
                    r == Ok::<bool, CryptoError>(false)
                } else if keys.len() == 0 {
                    crypto_outcome(r) == Err::<bool, Seq<char>>("Aggregation failed: "@ + "No public keys to aggregate"@)
                } else {
                    match pk_aggregate_result(public_key_bytes(keys)) {
                        Err(m) => crypto_outcome(r) == Err::<bool, Seq<char>>("Aggregation failed: "@ + m),
                        Ok(a) => r == Ok::<bool, CryptoError>(
                            bls_check(self.signature.signature.bytes(), a, self.message_hash@) == Ok::<bool, Seq<char>>(true),
                        ),
                    }
                }
            },
    {
        let message_hash = hash_data(message);
        if !hash_eq(&message_hash, &self.message_hash) {
            return Ok(false);
        }
        if !threshold_config.meets_threshold(self.signer_count) {
            return Ok(false);
        }
        let mut signer_public_keys: Vec<PublicKey> = Vec::new();
        let mut i: usize = 0;
        while i < validator_public_keys.len()
            invariant
                0 <= i <= validator_public_keys@.len(),
                public_key_bytes(signer_public_keys@) == public_key_bytes(
                    marked_keys(validator_public_keys@.subrange(0, i as int), self.signer_bitmap@),
                ),
            decreases validator_public_keys@.len() - i,
        {
            proof {
                let s = validator_public_keys@.subrange(0, i + 1);
                assert(s.drop_last() =~= validator_public_keys@.subrange(0, i as int));
            }
            if self.is_signer(i) {
                signer_public_keys.push(validator_public_keys[i].copy_key());
                proof {
                    let s = validator_public_keys@.subrange(0, i as int);
                    assert(public_key_bytes(signer_public_keys@) =~= public_key_bytes(marked_keys(s, self.signer_bitmap@)).push(
                        validator_public_keys@[i as int].bytes(),
                    ));
                    assert(public_key_bytes(marked_keys(s, self.signer_bitmap@).push(validator_public_keys@[i as int]))
                        =~= public_key_bytes(marked_keys(s, self.signer_bitmap@)).push(validator_public_keys@[i as int].bytes()));
                }
            }
            i = i + 1;
        }
        proof {
            assert(validator_public_keys@.subrange(0, validator_public_keys@.len() as int) =~= validator_public_keys@);
        }
        if signer_public_keys.len() != self.signer_count {
            return Ok(false);
        }
        let agg_public_key = AggregatePublicKey::aggregate(signer_public_keys.as_slice())?;
        Ok(agg_public_key.verify(&self.signature, &self.message_hash))
    }
}

/// A network operator's signature with the key it was made with and the
/// time it was made.
#[derive(Debug, Clone)]
pub struct NetworkSignature {
    pub network_id: String,
    pub signature: Signature,
    pub public_key: PublicKey,
    pub timestamp: u64,
}

/// Whether a signature of `timestamp` is at most `max_age` seconds old at
/// `now`.
pub open spec fn within_window(timestamp: u64, now: u64, max_age: u64) -> bool {
    now.saturating_sub(timestamp) <= max_age
}

impl NetworkSignature {
    /// A network signature made at `timestamp`.
    pub fn create_at(network_id: String, signature: Signature, public_key: PublicKey, timestamp: u64) -> (s: Self)
        ensures
            s == (NetworkSignature { network_id, signature, public_key, timestamp }),
    {
        NetworkSignature { network_id, signature, public_key, timestamp }
    }

    /// A network signature made now.
    pub fn create(network_id: String, signature: Signature, public_key: PublicKey) -> (s: Self)
        ensures
            s.network_id == network_id,
            s.signature == signature,
            s.public_key == public_key,
    {
        let timestamp = unix_now();
        Self::create_at(network_id, signature, public_key, timestamp)
    }

    /// Whether the signature signs the hash of `message` under the key.
    pub fn verify(&self, message: &[u8]) -> (r: bool)
        ensures
            r == (bls_check(self.signature.bytes(), self.public_key.bytes(), sha256(message@)) == Ok::<bool, Seq<char>>(true)),
    {
        let h = hash_data(message);
        self.public_key.verify(&self.signature, h.as_bytes().as_slice())
    }

    /// Whether the signature is at most `max_age_seconds` old at `now`.
    pub fn is_within_time_window_at(&self, max_age_seconds: u64, now: u64) -> (r: bool)
        ensures
            r == within_window(self.timestamp, now, max_age_seconds),
    {
        now.saturating_sub(self.timestamp) <= max_age_seconds
    }

    /// Whether the signature is at most `max_age_seconds` old now.
    pub fn is_within_time_window(&self, max_age_seconds: u64) -> (r: bool)
        ensures
            exists|now: u64| r == within_window(self.timestamp, now, max_age_seconds),
    {
        let now = unix_now();
        self.is_within_time_window_at(max_age_seconds, now)
    }
}

/// Text a settlement's hash is taken over:
/// `creditor:debtor:amount:period:creditor_timestamp`.
pub open spec fn settlement_text(creditor: Seq<char>, debtor: Seq<char>, amount: u64, period: Seq<char>, timestamp: u64) -> Seq<char> {
    creditor + ":"@ + debtor + ":"@ + decimal_text(amount as nat) + ":"@ + period + ":"@ + decimal_text(timestamp as nat)
}

/// Digest of a settlement's text.
pub open spec fn settlement_digest(creditor: Seq<char>, debtor: Seq<char>, amount: u64, period: Seq<char>, timestamp: u64) -> Seq<u8> {
    sha256(vstd::utf8::encode_utf8(settlement_text(creditor, debtor, amount, period, timestamp)))
}

fn settlement_hash_of(creditor: &String, debtor: &String, amount: u64, period: &String, timestamp: u64) -> (h: Blake2bHash)
    ensures
        h@ == settlement_digest(creditor@, debtor@, amount, period@, timestamp),
{
    let mut text = creditor.clone();
    text.append(":");
    text.append(debtor.as_str());
    text.append(":");
    push_decimal_text(&mut text, amount);
    text.append(":");
    text.append(period.as_str());
    text.append(":");
    push_decimal_text(&mut text, timestamp);
    hash_data(text.as_str().as_bytes())
}

/// The two networks' signatures on a settlement and its terms.
#[derive(Debug, Clone)]
pub struct SettlementSignature {
    pub creditor_signature: NetworkSignature,
    pub debtor_signature: NetworkSignature,
    pub settlement_amount: u64,
    pub period: String,
    pub settlement_hash: Blake2bHash,
}

/// Whether a settlement holds together at `now`: two different networks,
/// both signatures at most an hour old, and the hash over the terms.
pub open spec fn settlement_intact(s: SettlementSignature, now: u64) -> bool {
    &&& s.creditor_signature.network_id@ != s.debtor_signature.network_id@
    &&& within_window(s.creditor_signature.timestamp, now, 3600)
    &&& within_window(s.debtor_signature.timestamp, now, 3600)
    &&& s.settlement_hash@ == settlement_digest(
        s.creditor_signature.network_id@,
        s.debtor_signature.network_id@,
        s.settlement_amount,
        s.period@,
        s.creditor_signature.timestamp,
    )
}

impl SettlementSignature {
    /// Binds both signatures to the settlement's terms.
    pub fn create(creditor_signature: NetworkSignature, debtor_signature: NetworkSignature, settlement_amount: u64, period: String) -> (r: Result<Self>)
        ensures
            r matches Ok(s) && {
                &&& s.settlement_hash@ == settlement_digest(
                    creditor_signature.network_id@,
                    debtor_signature.network_id@,
                    settlement_amount,
                    period@,
                    creditor_signature.timestamp,
                )
                &&& s.creditor_signature == creditor_signature
                &&& s.debtor_signature == debtor_signature
                &&& s.settlement_amount == settlement_amount
                &&& s.period == period
            },
    {
        let settlement_hash = settlement_hash_of(
            &creditor_signature.network_id,
            &debtor_signature.network_id,
            settlement_amount,
            &period,
            creditor_signature.timestamp,
        );
        Ok(SettlementSignature { creditor_signature, debtor_signature, settlement_amount, period, settlement_hash })
    }

    /// Whether both networks signed the message.
    pub fn verify(&self, settlement_message: &[u8]) -> (r: bool)
        ensures
            r == (bls_check(self.creditor_signature.signature.bytes(), self.creditor_signature.public_key.bytes(), sha256(settlement_message@))
                == Ok::<bool, Seq<char>>(true) && bls_check(
                self.debtor_signature.signature.bytes(),
                self.debtor_signature.public_key.bytes(),
                sha256(settlement_message@),
            ) == Ok::<bool, Seq<char>>(true)),
    {
        self.creditor_signature.verify(settlement_message) && self.debtor_signature.verify(settlement_message)
    }

    /// Whether the settlement holds together at `now`: two different
    /// networks, both signatures at most an hour old, and the hash over the
    /// terms.
    pub fn verify_settlement_integrity_at(&self, now: u64) -> (r: bool)
        ensures
            r == settlement_intact(*self, now),
    {
        if self.creditor_signature.network_id == self.debtor_signature.network_id {
            return false;
        }
        let max_age: u64 = 3600;
        if !self.creditor_signature.is_within_time_window_at(max_age, now)
            || !self.debtor_signature.is_within_time_window_at(max_age, now) {
            return false;
        }
        let computed_hash = settlement_hash_of(
            &self.creditor_signature.network_id,
            &self.debtor_signature.network_id,
            self.settlement_amount,
            &self.period,
            self.creditor_signature.timestamp,
        );
        hash_eq(&computed_hash, &self.settlement_hash)
    }

    /// Whether the settlement holds together now.
    pub fn verify_settlement_integrity(&self) -> (r: bool)
        ensures
            r ==> self.creditor_signature.network_id@ != self.debtor_signature.network_id@,
            r ==> self.settlement_hash@ == settlement_digest(
                self.creditor_signature.network_id@,
                self.debtor_signature.network_id@,
                self.settlement_amount,
                self.period@,
                self.creditor_signature.timestamp,
            ),
            exists|now: u64| r == self.verify_settlement_integrity_spec(now),
    {
        let now = unix_now();
        let r = self.verify_settlement_integrity_at(now);
        assert(r == self.verify_settlement_integrity_spec(now));
        r
    }

    /// What `verify_settlement_integrity_at` gives at `now`.
    pub open spec fn verify_settlement_integrity_spec(&self, now: u64) -> bool {
        self.creditor_signature.network_id@ != self.debtor_signature.network_id@
            && within_window(self.creditor_signature.timestamp, now, 3600)
            && within_window(self.debtor_signature.timestamp, now, 3600)
            && self.settlement_hash@ == settlement_digest(
            self.creditor_signature.network_id@,
            self.debtor_signature.network_id@,
            self.settlement_amount,
            self.period@,
            self.creditor_signature.timestamp,
        )
    }
}

/// Collects validators' signatures per message until a threshold is met.
#[derive(Debug)]
pub struct SignatureManager {
    pending_multisigs: VecMap<Blake2bHash, Vec<(Signature, usize)>>,
    threshold_configs: VecMap<String, ThresholdConfig>,
}

/// (validator index, signature) pairs of stored (signature, validator index)
/// entries.
pub open spec fn entries_view(l: Seq<(Signature, usize)>) -> Seq<(usize, Signature)> {
    l.map_values(|e: (Signature, usize)| (e.1, e.0))
}

/// Whether a list of signatures has one of validator `v`.
pub open spec fn signed_by(list: Seq<(usize, Signature)>, v: usize) -> bool {
    exists|j: int| 0 <= j < list.len() && list[j].0 == v
}

/// (validator index, signature) pairs with the same indices and signature
/// bytes as the stored entries.
fn signer_pairs(entries: &Vec<(Signature, usize)>) -> (pairs: Vec<(usize, Signature)>)
    ensures
        signer_indices(pairs@) == signer_indices(entries_view(entries@)),
        signature_bytes(signer_signatures(pairs@)) == signature_bytes(signer_signatures(entries_view(entries@))),
{
    let mut pairs: Vec<(usize, Signature)> = Vec::new();
    let mut i: usize = 0;
    while i < entries.len()
        invariant
            0 <= i <= entries@.len(),
            pairs@.len() == i,
            forall|j: int| 0 <= j < i ==> (#[trigger] pairs@[j]).0 == entries@[j].1 && pairs@[j].1.bytes() == entries@[j].0.bytes(),
        decreases entries@.len() - i,
    {
        pairs.push((entries[i].1, entries[i].0.copy_sig()));
        i = i + 1;
    }
    assert(signer_indices(pairs@) =~= signer_indices(entries_view(entries@)));
    assert(signature_bytes(signer_signatures(pairs@)) =~= signature_bytes(signer_signatures(entries_view(entries@))));
    pairs
}

/// `creates` looks only at the indices and the signatures' bytes.
proof fn lemma_creates_by_content(a: Seq<(usize, Signature)>, b: Seq<(usize, Signature)>, message: Seq<u8>, total: usize)
    requires
        signer_indices(a) == signer_indices(b),
        signature_bytes(signer_signatures(a)) == signature_bytes(signer_signatures(b)),
    ensures
        forall|r: Result<MultiSignature>| creates(a, message, total, r) == creates(b, message, total, r),
{
    assert(a.len() == signer_indices(a).len());
    assert(b.len() == signer_indices(b).len());
}

impl SignatureManager {
    /// Pending signatures, by the digest of the message.
    pub closed spec fn pending(&self) -> Map<Seq<u8>, Seq<(usize, Signature)>> {
        self.pending_multisigs@.map_values(|l: Vec<(Signature, usize)>| entries_view(l@))
    }

    /// Threshold configurations, by message type.
    pub closed spec fn configs(&self) -> Map<Seq<char>, ThresholdConfig> {
        self.threshold_configs@
    }

    /// Signatures pending for a message digest.
    pub open spec fn pending_for(&self, h: Seq<u8>) -> Seq<(usize, Signature)> {
        if self.pending().contains_key(h) {
            self.pending()[h]
        } else {
            Seq::empty()
        }
    }

    pub fn new() -> (m: Self)
        ensures
            m.pending() == Map::<Seq<u8>, Seq<(usize, Signature)>>::empty(),
            m.configs() == Map::<Seq<char>, ThresholdConfig>::empty(),
    {
        let m = SignatureManager { pending_multisigs: VecMap::new(), threshold_configs: VecMap::new() };
        assert(m.pending() =~= Map::<Seq<u8>, Seq<(usize, Signature)>>::empty());
        m
    }

    /// Sets the threshold of a message type.
    pub fn set_threshold_config(&mut self, message_type: String, config: ThresholdConfig)
        ensures
            final(self).configs() == old(self).configs().insert(message_type@, config),
            final(self).pending() == old(self).pending(),
    {
        self.threshold_configs.insert(message_type, config);
    }

    /// Adds a validator's signature on `message`; refused when the validator
    /// already signed it.
    pub fn add_signature(&mut self, message: &[u8], validator_index: usize, signature: Signature) -> (r: Result<()>)
        ensures
            final(self).configs() == old(self).configs(),
            signed_by(old(self).pending_for(sha256(message@)), validator_index) ==> {
                &&& crypto_outcome(r) == Err::<(), Seq<char>>("Aggregation failed: "@ + "Validator already signed this message"@)
                &&& final(self).pending() == old(self).pending()
            },
            !signed_by(old(self).pending_for(sha256(message@)), validator_index) ==> {
                &&& r is Ok
                &&& final(self).pending() == old(self).pending().insert(
                    sha256(message@),
                    old(self).pending_for(sha256(message@)).push((validator_index, signature)),
                )
            },
    {
        let message_hash = hash_data(message);
        let ghost h = message_hash@;
        let removed = self.pending_multisigs.remove(&message_hash);
        let existed = removed.is_some();
        let mut signatures = match removed {
            Some(l) => l,
            None => Vec::new(),
        };
        assert(entries_view(signatures@) == old(self).pending_for(h));
        let mut i: usize = 0;
        while i < signatures.len()
            invariant
                0 <= i <= signatures@.len(),
                forall|j: int| 0 <= j < i ==> signatures@[j].1 != validator_index,
                existed == old(self).pending().contains_key(h),
                entries_view(signatures@) == old(self).pending_for(h),
                h == sha256(message@),
                message_hash@ == h,
                self.pending_multisigs@ == old(self).pending_multisigs@.remove(h),
                existed ==> old(self).pending_multisigs@.contains_key(h) && signatures == old(self).pending_multisigs@[h],
                !existed ==> !old(self).pending_multisigs@.contains_key(h) && signatures@.len() == 0,
                self.configs() == old(self).configs(),
            decreases signatures@.len() - i,
        {
            if signatures[i].1 == validator_index {
                proof {
                    assert(entries_view(signatures@)[i as int].0 == validator_index);
                }
                if existed {
                    self.pending_multisigs.insert(message_hash, signatures);
                    proof {
                        assert(self.pending_multisigs@ =~= old(self).pending_multisigs@);
                    }
                } else {
                    proof {
                        assert(self.pending_multisigs@ =~= old(self).pending_multisigs@);
                    }
                }
                return Err(CryptoError::AggregationFailed("Validator already signed this message".to_string()));
            }
            i = i + 1;
        }
        let ghost before = entries_view(signatures@);
        proof {
            assert forall|j: int| 0 <= j < before.len() implies before[j].0 != validator_index by {
                assert(before[j].0 == signatures@[j].1);
            }
        }
        signatures.push((signature, validator_index));
        let ghost after = signatures;
        self.pending_multisigs.insert(message_hash, signatures);
        proof {
            assert(entries_view(after@) =~= before.push((validator_index, signature)));
            assert(self.pending_multisigs@ =~= old(self).pending_multisigs@.insert(h, after));
            assert(self.pending() =~= old(self).pending().insert(h, before.push((validator_index, signature))));
        }
        Ok(())
    }

    /// Creates the multi-signature of `message` once its signatures meet the
    /// threshold of `message_type`, and drops them from the pending ones.
    /// Refused when the type has no threshold or the creation fails.
    pub fn try_create_multisig(&mut self, message: &[u8], message_type: &str, total_validators: usize) -> (r: Result<Option<MultiSignature>>)
        requires
            total_validators <= usize::MAX - 7,
        ensures
            final(self).configs() == old(self).configs(),
            !old(self).configs().contains_key(message_type@) ==> {
                &&& crypto_outcome(r) == Err::<Option<MultiSignature>, Seq<char>>(
                    "Signature verification failed: "@ + ("No threshold config for message type: "@ + message_type@),
                )
                &&& final(self).pending() == old(self).pending()
            },
            old(self).configs().contains_key(message_type@) ==> {
                let h = sha256(message@);
                let list = old(self).pending_for(h);
                if !old(self).pending().contains_key(h) || list.len() < old(self).configs()[message_type@].threshold {
                    r matches Ok(None) && final(self).pending() == old(self).pending()
                } else {
                    match r {
                        Ok(Some(ms)) => creates(list, message@, total_validators, Ok(ms)) && final(self).pending()
                            == old(self).pending().remove(h),
                        Ok(None) => false,
                        Err(e) => creates(list, message@, total_validators, Err(e)) && final(self).pending()
                            == old(self).pending(),
                    }
                }
            },
    {
        let message_hash = hash_data(message);
        let key = message_type.to_string();
        let threshold_config = match self.threshold_configs.get(&key) {
            Some(c) => *c,
            None => {
                let mut m = "No threshold config for message type: ".to_string();
                m.append(message_type);
                return Err(CryptoError::VerificationFailed(m));
            },
        };
        let ready = match self.pending_multisigs.get(&message_hash) {
            Some(signatures) => threshold_config.meets_threshold(signatures.len()),
            None => false,
        };
        if !ready {
            return Ok(None);
        }
        let multisig = match self.pending_multisigs.get(&message_hash) {
            Some(signatures) => {
                let pairs = signer_pairs(signatures);
                proof {
                    lemma_creates_by_content(pairs@, entries_view(signatures@), message@, total_validators);
                }
                MultiSignature::create(pairs.as_slice(), message, total_validators)?
            },
            None => {
                return Ok(None);
            },
        };
        self.pending_multisigs.remove(&message_hash);
        proof {
            assert(self.pending() =~= old(self).pending().remove(message_hash@));
        }
        Ok(Some(multisig))
    }

    /// Number of signatures pending for `message`.
    pub fn get_signature_count(&self, message: &[u8]) -> (n: usize)
        ensures
            n == self.pending_for(sha256(message@)).len(),
    {
        let message_hash = hash_data(message);
        match self.pending_multisigs.get(&message_hash) {
            Some(signatures) => signatures.len(),
            None => 0,
        }
    }

    /// Drops the pending signatures of the given message digests.
    pub fn cleanup_old_signatures(&mut self, message_hashes_to_remove: &[Blake2bHash])
        ensures
            final(self).configs() == old(self).configs(),
            final(self).pending() == old(self).pending().remove_keys(
                message_hashes_to_remove@.map_values(|h: Blake2bHash| h@).to_set(),
            ),
    {
        let mut i: usize = 0;
        while i < message_hashes_to_remove.len()
            invariant
                0 <= i <= message_hashes_to_remove@.len(),
                self.configs() == old(self).configs(),
                self.pending() == old(self).pending().remove_keys(
                    message_hashes_to_remove@.subrange(0, i as int).map_values(|h: Blake2bHash| h@).to_set(),
                ),
            decreases message_hashes_to_remove@.len() - i,
        {
            let ghost prev = self.pending_multisigs@;
            self.pending_multisigs.remove(&message_hashes_to_remove[i]);
            proof {
                assert(self.pending() =~= prev.map_values(|l: Vec<(Signature, usize)>| entries_view(l@)).remove(message_hashes_to_remove@[i as int]@));
                let a = message_hashes_to_remove@.subrange(0, i as int).map_values(|h: Blake2bHash| h@);
                let b = message_hashes_to_remove@.subrange(0, i + 1).map_values(|h: Blake2bHash| h@);
                assert(b =~= a.push(message_hashes_to_remove@[i as int]@));
                assert forall|x: Seq<u8>| b.to_set().contains(x) <==> (a.to_set().contains(x) || x == message_hashes_to_remove@[i as int]@) by {
                    lemma_push_contains(a, message_hashes_to_remove@[i as int]@, x);
                }
                assert(self.pending() =~= old(self).pending().remove_keys(b.to_set()));
            }
            i = i + 1;
        }
        proof {
            assert(message_hashes_to_remove@.subrange(0, message_hashes_to_remove@.len() as int) =~= message_hashes_to_remove@);
        }
    }
}

impl Default for SignatureManager {
    fn default() -> (m: Self)
        ensures
            m.pending() == Map::<Seq<u8>, Seq<(usize, Signature)>>::empty(),
            m.configs() == Map::<Seq<char>, ThresholdConfig>::empty(),
    {
        Self::new()
    }
}

/// A signature made at `timestamp` is within a window of `max_age` seconds
/// at `now` exactly when `now` is at most `max_age` seconds after it; one
/// dated later than `now` is within any window. So a signature stays within
/// the window until `max_age` seconds have passed and never comes back into
/// it, and a wider window holds every signature a narrower one does.
pub proof fn law_time_window(timestamp: u64, now: u64, later: u64, max_age: u64, wider: u64)
    ensures
        within_window(timestamp, now, max_age) <==> now <= timestamp + max_age,
        timestamp + max_age < now ==> !within_window(timestamp, now, max_age),
        now <= timestamp ==> within_window(timestamp, now, max_age),
        now <= later && within_window(timestamp, later, max_age) ==> within_window(timestamp, now, max_age),
        max_age <= wider && within_window(timestamp, now, max_age) ==> within_window(timestamp, now, wider),
{
}

/// A settlement holds together only between two different networks, only
/// while neither signature is more than an hour (3600 seconds) old, and only
/// under the hash of its own terms; a settlement that holds at some time
/// held at every earlier time.
pub proof fn law_settlement_integrity(s: SettlementSignature, now: u64, earlier: u64)
    ensures
        settlement_intact(s, now) ==> s.creditor_signature.network_id@ != s.debtor_signature.network_id@,
        settlement_intact(s, now) ==> now <= s.creditor_signature.timestamp + 3600,
        settlement_intact(s, now) ==> now <= s.debtor_signature.timestamp + 3600,
        settlement_intact(s, now) ==> s.settlement_hash@ == settlement_digest(
            s.creditor_signature.network_id@,
            s.debtor_signature.network_id@,
            s.settlement_amount,
            s.period@,
            s.creditor_signature.timestamp,
        ),
        settlement_intact(s, now) && earlier <= now ==> settlement_intact(s, earlier),
{
}

} // verus!
