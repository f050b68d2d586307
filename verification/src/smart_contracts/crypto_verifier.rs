//! Checks of zero-knowledge settlement proofs (Groth16 over BN254, through
//! the `ark` crates) and of operators' signatures, for contracts.
use vstd::prelude::*;
use ark_bn254::{Bn254, Fr};
use ark_ff::PrimeField;
use ark_groth16::{Groth16, Proof, VerifyingKey};
use ark_serialize::CanonicalDeserialize;
use crate::collections::VecMap;
use crate::crypto::bls::{bls_check, sig_decodes};
use crate::crypto::{public_key_bytes, AggregatePublicKey, AggregateSignature, PublicKey, Signature};
use crate::encoding::{le_bytes, str_eq, u64_to_le};
use crate::primitives::error::{BlockchainError, Result};
use crate::crypto::bls::{outcome, pk_aggregate_result};
use crate::primitives::primitives::{hash_data, sha256, Blake2bHash};

verus! {

/// Whether bytes decode to a Groth16 verifying key over BN254
/// (`VerifyingKey::deserialize_compressed`).
pub uninterp spec fn vk_decodes(b: Seq<u8>) -> bool;

/// Outcome of checking a Groth16 proof over BN254 under a verifying key,
/// with public inputs given as little-endian field elements: `None` when the
/// key or the proof does not decode or the check fails to run.
pub uninterp spec fn groth16_outcome(vk: Seq<u8>, proof: Seq<u8>, inputs: Seq<Seq<u8>>) -> Option<bool>;

/// `VerifyingKey::<Bn254>::deserialize_compressed`: whether the bytes decode.
#[verifier::external_body]
fn ark_vk_decodes(b: &[u8]) -> (ok: bool)
    ensures
        ok == vk_decodes(b@),
{
    VerifyingKey::<Bn254>::deserialize_compressed(b).is_ok()
}

/// `Groth16::<Bn254>::verify_proof` on a prepared key, with the key and the
/// proof decoded from compressed bytes and each public input read with
/// `Fr::from_le_bytes_mod_order`. The contract names the outcome.
#[verifier::external_body]
fn ark_groth16_verify(vk: &[u8], proof: &[u8], inputs: &Vec<[u8; 32]>) -> (r: Option<bool>)
    ensures
        r == groth16_outcome(vk@, proof@, inputs@.map_values(|a: [u8; 32]| a@)),
{
    let vk = VerifyingKey::<Bn254>::deserialize_compressed(vk).ok()?;
    let proof = Proof::<Bn254>::deserialize_compressed(proof).ok()?;
    let fields: Vec<Fr> = inputs.iter().map(|b| Fr::from_le_bytes_mod_order(b)).collect();
    let pvk = ark_groth16::prepare_verifying_key(&vk);
    Groth16::<Bn254>::verify_proof(&pvk, &proof, &fields).ok()
}

/// A word as a 32-byte little-endian field element.
pub open spec fn word_field(v: u64) -> Seq<u8> {
    le_bytes(v as nat) + Seq::new(24, |i: int| 0u8)
}

fn word_to_field(v: u64) -> (b: [u8; 32])
    ensures
        b@ == word_field(v),
{
    let le = u64_to_le(v);
    let mut b = [0u8; 32];
    let mut i: usize = 0;
    while i < 8
        invariant
            0 <= i <= 8,
            le@ == le_bytes(v as nat),
            forall|j: int| 0 <= j < i ==> b@[j] == le@[j],
            forall|j: int| 8 <= j < 32 ==> b@[j] == 0,
        decreases 8 - i,
    {
        b[i] = le[i];
        i = i + 1;
    }
    assert(b@ =~= word_field(v));
    b
}

/// Public inputs of a settlement proof.
#[derive(Debug, Clone)]
pub struct SettlementProofInputs {
    pub total_charges: u64,
    pub exchange_rate: u32,
    pub settlement_amount: u64,
    pub period_hash: Blake2bHash,
    pub network_pair_hash: Blake2bHash,
}

/// Public inputs of a record privacy proof.
#[derive(Debug, Clone)]
pub struct CDRPrivacyInputs {
    pub batch_commitment: Blake2bHash,
    pub network_pair_hash: Blake2bHash,
    pub period_hash: Blake2bHash,
    pub total_amount_commitment: Blake2bHash,
}

/// Field elements of a settlement proof's public inputs, in circuit order.
pub open spec fn settlement_fields(i: SettlementProofInputs) -> Seq<Seq<u8>> {
    seq![
        word_field(i.total_charges),
        word_field(i.exchange_rate as u64),
        word_field(i.settlement_amount),
        i.period_hash@,
        i.network_pair_hash@,
    ]
}

/// Field elements of a privacy proof's public inputs, in circuit order.
pub open spec fn privacy_fields(i: CDRPrivacyInputs) -> Seq<Seq<u8>> {
    seq![i.batch_commitment@, i.network_pair_hash@, i.period_hash@, i.total_amount_commitment@]
}

/// Outcome of checking a proof under an optional verifying key.
pub open spec fn zk_check(vk: Option<Seq<u8>>, proof: Seq<u8>, inputs: Seq<Seq<u8>>) -> core::result::Result<bool, Seq<char>> {
    match vk {
        None => Err("Invalid proof"@),
        Some(k) => match groth16_outcome(k, proof, inputs) {
            Some(b) => Ok(b),
            None => Err("Invalid proof"@),
        },
    }
}

/// Holds the verifying keys of the settlement and privacy circuits.
pub struct ZKProofVerifier {
    settlement_vk: Option<Vec<u8>>,
    cdr_privacy_vk: Option<Vec<u8>>,
}

fn opt_view(o: &Option<Vec<u8>>) -> (r: Option<&Vec<u8>>)
    ensures
        r == match o {
            Some(v) => Some(v),
            None => None::<&Vec<u8>>,
        },
{
    match o {
        Some(v) => Some(v),
        None => None,
    }
}

impl ZKProofVerifier {
    /// The loaded settlement key.
    pub closed spec fn settlement_key(&self) -> Option<Seq<u8>> {
        match self.settlement_vk {
            Some(v) => Some(v@),
            None => None,
        }
    }

    /// The loaded privacy key.
    pub closed spec fn privacy_key(&self) -> Option<Seq<u8>> {
        match self.cdr_privacy_vk {
            Some(v) => Some(v@),
            None => None,
        }
    }

    /// A verifier with no keys.
    pub fn new() -> (v: Self)
        ensures
            v.settlement_key() is None,
            v.privacy_key() is None,
    {
        ZKProofVerifier { settlement_vk: None, cdr_privacy_vk: None }
    }

    /// Loads the settlement circuit's key; refuses bytes that do not decode.
    pub fn load_settlement_key(&mut self, vk_bytes: &[u8]) -> (r: Result<()>)
        ensures
            vk_decodes(vk_bytes@) ==> r is Ok && final(self).settlement_key() == Some(vk_bytes@),
            !vk_decodes(vk_bytes@) ==> (r matches Err(BlockchainError::InvalidProof)
                && final(self).settlement_key() == old(self).settlement_key()),
            final(self).privacy_key() == old(self).privacy_key(),
    {
        if !ark_vk_decodes(vk_bytes) {
            return Err(BlockchainError::InvalidProof);
        }
        let mut v: Vec<u8> = Vec::new();
        v.extend_from_slice(vk_bytes);
        proof {
            assert forall|i: int| 0 <= i < v@.len() implies v@[i] == vk_bytes@[i] by {
                assert(cloned::<u8>(vk_bytes@[i], v@[i]));
            }
            assert(v@ =~= vk_bytes@);
        }
        self.settlement_vk = Some(v);
        Ok(())
    }

    /// Loads the privacy circuit's key; refuses bytes that do not decode.
    pub fn load_cdr_privacy_key(&mut self, vk_bytes: &[u8]) -> (r: Result<()>)
        ensures
            vk_decodes(vk_bytes@) ==> r is Ok && final(self).privacy_key() == Some(vk_bytes@),
            !vk_decodes(vk_bytes@) ==> (r matches Err(BlockchainError::InvalidProof)
                && final(self).privacy_key() == old(self).privacy_key()),
            final(self).settlement_key() == old(self).settlement_key(),
    {
        if !ark_vk_decodes(vk_bytes) {
            return Err(BlockchainError::InvalidProof);
        }
        let mut v: Vec<u8> = Vec::new();
        v.extend_from_slice(vk_bytes);
        proof {
            assert forall|i: int| 0 <= i < v@.len() implies v@[i] == vk_bytes@[i] by {
                assert(cloned::<u8>(vk_bytes@[i], v@[i]));
            }
            assert(v@ =~= vk_bytes@);
        }
        self.cdr_privacy_vk = Some(v);
        Ok(())
    }

    /// Field elements of a settlement proof's public inputs.
    pub fn prepare_settlement_inputs(&self, inputs: &SettlementProofInputs) -> (r: Result<Vec<[u8; 32]>>)
        ensures
            r matches Ok(v) && v@.map_values(|a: [u8; 32]| a@) == settlement_fields(*inputs),
    {
        let mut v: Vec<[u8; 32]> = Vec::new();
        v.push(word_to_field(inputs.total_charges));
        v.push(word_to_field(inputs.exchange_rate as u64));
        v.push(word_to_field(inputs.settlement_amount));
        v.push(inputs.period_hash.0);
        v.push(inputs.network_pair_hash.0);
        assert(v@.map_values(|a: [u8; 32]| a@) =~= settlement_fields(*inputs));
        Ok(v)
    }

    /// Field elements of a privacy proof's public inputs.
    pub fn prepare_cdr_inputs(&self, inputs: &CDRPrivacyInputs) -> (r: Result<Vec<[u8; 32]>>)
        ensures
            r matches Ok(v) && v@.map_values(|a: [u8; 32]| a@) == privacy_fields(*inputs),
    {
        let mut v: Vec<[u8; 32]> = Vec::new();
        v.push(inputs.batch_commitment.0);
        v.push(inputs.network_pair_hash.0);
        v.push(inputs.period_hash.0);
        v.push(inputs.total_amount_commitment.0);
        assert(v@.map_values(|a: [u8; 32]| a@) =~= privacy_fields(*inputs));
        Ok(v)
    }

    /// Checks a settlement proof; refused without a loaded key or when the
    /// proof cannot be checked.
    pub fn verify_settlement_proof(&self, proof_bytes: &[u8], inputs: &SettlementProofInputs) -> (r: Result<bool>)
        ensures
            outcome(r) == zk_check(self.settlement_key(), proof_bytes@, settlement_fields(*inputs)),
    {
        let vk = match opt_view(&self.settlement_vk) {
            Some(v) => v,
            None => {
                return Err(BlockchainError::InvalidProof);
            },
        };
        let public_inputs = self.prepare_settlement_inputs(inputs)?;
        match ark_groth16_verify(vk.as_slice(), proof_bytes, &public_inputs) {
            Some(b) => Ok(b),
            None => Err(BlockchainError::InvalidProof),
        }
    }

    /// Checks a privacy proof; refused without a loaded key or when the proof
    /// cannot be checked.
    pub fn verify_cdr_privacy_proof(&self, proof_bytes: &[u8], inputs: &CDRPrivacyInputs) -> (r: Result<bool>)
        ensures
            outcome(r) == zk_check(self.privacy_key(), proof_bytes@, privacy_fields(*inputs)),
    {
        let vk = match opt_view(&self.cdr_privacy_vk) {
            Some(v) => v,
            None => {
                return Err(BlockchainError::InvalidProof);
            },
        };
        let public_inputs = self.prepare_cdr_inputs(inputs)?;
        match ark_groth16_verify(vk.as_slice(), proof_bytes, &public_inputs) {
            Some(b) => Ok(b),
            None => Err(BlockchainError::InvalidProof),
        }
    }
}

/// Outcome of checking one operator's signature on a message against the
/// registered keys: the message is signed through its hash.
pub open spec fn contract_sig_check(keys: Map<Seq<char>, PublicKey>, network: Seq<char>, msg: Seq<u8>, sig: Seq<u8>) -> core::result::Result<bool, Seq<char>> {
    if !keys.contains_key(network) {
        Err("Invalid signature"@)
    } else if !(sig.len() == 96 && sig_decodes(sig)) {
        Err("Invalid signature"@)
    } else {
        match bls_check(sig, keys[network].bytes(), sha256(msg)) {
            Ok(b) => Ok(b),
            Err(m) => Err("Cryptography error: "@ + ("Signature verification failed: "@ + m)),
        }
    }
}

/// What checking an aggregate signature of `networks` on the hash of `msg`
/// gives: refused unless every network is registered, the signature decodes
/// and the keys aggregate; else the BLS check under the aggregated key.
pub open spec fn aggregate_check(keys: Map<Seq<char>, PublicKey>, networks: Seq<String>, msg: Seq<u8>, sig: Seq<u8>) -> core::result::Result<bool, Seq<char>> {
    if !(forall|i: int| 0 <= i < networks.len() ==> keys.contains_key(#[trigger] networks[i]@)) {
        Err("Invalid signature"@)
    } else if !(sig.len() == 96 && sig_decodes(sig)) {
        Err("Invalid signature"@)
    } else if networks.len() == 0 {
        Err("Invalid signature"@)
    } else {
        match pk_aggregate_result(networks.map_values(|n: String| keys[n@].bytes())) {
            Err(_) => Err("Invalid signature"@),
            Ok(a) => match bls_check(sig, a, sha256(msg)) {
                Ok(b) => Ok(b),
                Err(m) => Err("Cryptography error: "@ + ("Signature verification failed: "@ + m)),
            },
        }
    }
}

/// Whether a name is among `list`.
pub open spec fn named_in(list: Seq<String>, name: Seq<char>) -> bool {
    exists|i: int| 0 <= i < list.len() && list[i]@ == name
}

/// The listed networks whose signature counts, checked in order: a signer
/// outside `listed`, or one already counted, is passed over; the first
/// refused check stops the count.
pub open spec fn counted_signers(
    keys: Map<Seq<char>, PublicKey>,
    listed: Seq<String>,
    msg: Seq<u8>,
    sigs: Seq<(Seq<char>, Seq<u8>)>,
) -> core::result::Result<Seq<Seq<char>>, Seq<char>>
    decreases sigs.len(),
{
    if sigs.len() == 0 {
        Ok(Seq::empty())
    } else {
        match counted_signers(keys, listed, msg, sigs.drop_last()) {
            Err(m) => Err(m),
            Ok(done) => if !named_in(listed, sigs.last().0) || done.contains(sigs.last().0) {
                Ok(done)
            } else {
                match contract_sig_check(keys, sigs.last().0, msg, sigs.last().1) {
                    Err(m) => Err(m),
                    Ok(b) => Ok(if b { done.push(sigs.last().0) } else { done }),
                }
            },
        }
    }
}

/// Views of (network, signature) pairs.
pub open spec fn sig_pairs(s: Seq<(String, Vec<u8>)>) -> Seq<(Seq<char>, Seq<u8>)> {
    s.map_values(|p: (String, Vec<u8>)| (p.0@, p.1@))
}

/// Registry of operators' keys checking their signatures for contracts.
pub struct BLSVerifier {
    operator_keys: VecMap<String, PublicKey>,
}

impl BLSVerifier {
    pub closed spec fn operators(&self) -> Map<Seq<char>, PublicKey> {
        self.operator_keys@
    }

    pub fn new() -> (v: Self)
        ensures
            v.operators() == Map::<Seq<char>, PublicKey>::empty(),
    {
        BLSVerifier { operator_keys: VecMap::new() }
    }

    /// Registers (or replaces) a network's key.
    pub fn register_operator(&mut self, network_name: String, public_key: PublicKey)
        ensures
            final(self).operators() == old(self).operators().insert(network_name@, public_key),
    {
        self.operator_keys.insert(network_name, public_key);
    }

    /// Whether a network is registered.
    pub fn has_operator(&self, network_name: &String) -> (r: bool)
        ensures
            r == self.operators().contains_key(network_name@),
    {
        self.operator_keys.contains_key(network_name)
    }

    /// Checks a network's signature on the hash of a message.
    pub fn verify_operator_signature(&self, network_name: &str, message: &[u8], signature_bytes: &[u8]) -> (r: Result<bool>)
        ensures
            outcome(r) == contract_sig_check(self.operators(), network_name@, message@, signature_bytes@),
    {
        let name = network_name.to_string();
        let public_key = match self.operator_keys.get(&name) {
            Some(k) => k,
            None => {
                return Err(BlockchainError::InvalidSignature);
            },
        };
        let signature = match Signature::from_bytes(signature_bytes) {
            Ok(s) => s,
            Err(_) => {
                return Err(BlockchainError::InvalidSignature);
            },
        };
        let message_hash = hash_data(message);
        match signature.verify(public_key, message_hash.0.as_slice()) {
            Ok(b) => Ok(b),
            Err(e) => Err(BlockchainError::Crypto(e.message())),
        }
    }

    /// Checks an aggregate signature of the given networks on the hash of
    /// `message`, under the aggregate of their keys; refused when a network is
    /// not registered, the aggregate does not decode or the keys do not
    /// aggregate.
    pub fn verify_aggregate_signature(&self, networks: &[String], message: &[u8], aggregate_sig_bytes: &[u8]) -> (r: Result<bool>)
        ensures
            outcome(r) == aggregate_check(self.operators(), networks@, message@, aggregate_sig_bytes@),
    {
        let mut public_keys: Vec<PublicKey> = Vec::new();
        let mut i: usize = 0;
        while i < networks.len()
            invariant
                0 <= i <= networks@.len(),
                public_keys@.len() == i,
                forall|j: int| 0 <= j < i ==> self.operators().contains_key(#[trigger] networks@[j]@),
                forall|j: int| 0 <= j < i ==> (#[trigger] public_keys@[j]).bytes() == self.operators()[networks@[j]@].bytes(),
            decreases networks@.len() - i,
        {
            match self.operator_keys.get(&networks[i]) {
                Some(pk) => {
                    public_keys.push(pk.copy_key());
                },
                None => {
                    return Err(BlockchainError::InvalidSignature);
                },
            }
            i = i + 1;
        }
        let agg_signature = match AggregateSignature::from_bytes(aggregate_sig_bytes) {
            Ok(s) => s,
            Err(_) => {
                return Err(BlockchainError::InvalidSignature);
            },
        };
        proof {
            assert(public_key_bytes(public_keys@) =~= networks@.map_values(|n: String| self.operators()[n@].bytes()));
        }
        let agg_public_key = match AggregatePublicKey::aggregate(public_keys.as_slice()) {
            Ok(k) => k,
            Err(_) => {
                return Err(BlockchainError::InvalidSignature);
            },
        };
        let message_hash = hash_data(message);
        match agg_signature.verify(&agg_public_key, &message_hash) {
            Ok(b) => Ok(b),
            Err(e) => Err(BlockchainError::Crypto(e.message())),
        }
    }

    /// Whether at least `threshold` of the listed networks have a valid
    /// signature among `signatures`, each network counted at most once and
    /// signers outside the list passed over; false outright when fewer
    /// signatures are given; the first refused check refuses the whole.
    pub fn verify_threshold_signature(&self, networks: &[String], threshold: usize, message: &[u8], signatures: &[(String, Vec<u8>)]) -> (r: Result<bool>)
        ensures
            signatures@.len() < threshold ==> r matches Ok(false),
            signatures@.len() >= threshold ==> match counted_signers(self.operators(), networks@, message@, sig_pairs(signatures@)) {
                Ok(c) => r == Ok::<bool, BlockchainError>(c.len() >= threshold),
                Err(m) => outcome(r) == Err::<bool, Seq<char>>(m),
            },
    {
        if signatures.len() < threshold {
            return Ok(false);
        }
        let mut counted: Vec<String> = Vec::new();
        proof {
            assert(sig_pairs(signatures@).subrange(0, 0) =~= Seq::<(Seq<char>, Seq<u8>)>::empty());
            assert(counted@.map_values(|n: String| n@) =~= Seq::<Seq<char>>::empty());
        }
        let mut i: usize = 0;
        while i < signatures.len()
            invariant
                0 <= i <= signatures@.len(),
                counted_signers(self.operators(), networks@, message@, sig_pairs(signatures@).subrange(0, i as int))
                    == Ok::<Seq<Seq<char>>, Seq<char>>(counted@.map_values(|n: String| n@)),
                counted@.len() <= i,
                signatures@.len() >= threshold,
            decreases signatures@.len() - i,
        {
            let ghost done = counted@.map_values(|n: String| n@);
            proof {
                assert(sig_pairs(signatures@).subrange(0, i + 1).drop_last() =~= sig_pairs(signatures@).subrange(0, i as int));
                assert(sig_pairs(signatures@).subrange(0, i + 1).last() == (signatures@[i as int].0@, signatures@[i as int].1@));
            }
            let listed = name_listed(networks, &signatures[i].0);
            let seen = name_listed(counted.as_slice(), &signatures[i].0);
            proof {
                assert(seen == done.contains(signatures@[i as int].0@)) by {
                    if seen {
                        let k = choose|k: int| 0 <= k < counted@.len() && counted@[k]@ == signatures@[i as int].0@;
                        assert(done[k] == signatures@[i as int].0@);
                    }
                    if done.contains(signatures@[i as int].0@) {
                        let k = choose|k: int| 0 <= k < done.len() && done[k] == signatures@[i as int].0@;
                        assert(counted@[k]@ == signatures@[i as int].0@);
                    }
                }
            }
            if listed && !seen {
                let ok = self.verify_operator_signature(signatures[i].0.as_str(), message, signatures[i].1.as_slice());
                match ok {
                    Ok(b) => {
                        if b {
                            counted.push(signatures[i].0.clone());
                            proof {
                                assert(counted@.map_values(|n: String| n@) =~= done.push(signatures@[i as int].0@));
                            }
                        }
                    },
                    Err(e) => {
                        proof {
                            lemma_counted_prefix_err(self.operators(), networks@, message@, sig_pairs(signatures@), i as int + 1);
                        }
                        return Err(e);
                    },
                }
            }
            i = i + 1;
        }
        assert(sig_pairs(signatures@).subrange(0, signatures@.len() as int) =~= sig_pairs(signatures@));
        Ok(counted.len() >= threshold)
    }
}

/// Whether a name is among `list`.
fn name_listed(list: &[String], name: &String) -> (r: bool)
    ensures
        r == named_in(list@, name@),
{
    let mut i: usize = 0;
    while i < list.len()
        invariant
            0 <= i <= list@.len(),
            forall|j: int| 0 <= j < i ==> list@[j]@ != name@,
        decreases list@.len() - i,
    {
        if str_eq(list[i].as_str(), name.as_str()) {
            return true;
        }
        i = i + 1;
    }
    false
}

/// Once a prefix of the signatures is refused, so is every longer prefix.
proof fn lemma_counted_prefix_err(
    keys: Map<Seq<char>, PublicKey>,
    listed: Seq<String>,
    msg: Seq<u8>,
    s: Seq<(Seq<char>, Seq<u8>)>,
    k: int,
)
    requires
        0 <= k <= s.len(),
        counted_signers(keys, listed, msg, s.subrange(0, k)) is Err,
    ensures
        counted_signers(keys, listed, msg, s) == counted_signers(keys, listed, msg, s.subrange(0, k)),
    decreases s.len() - k,
{
    if k < s.len() {
        assert(s.subrange(0, k + 1).drop_last() =~= s.subrange(0, k));
        lemma_counted_prefix_err(keys, listed, msg, s, k + 1);
    } else {
        assert(s.subrange(0, k) =~= s);
    }
}

/// The checks a contract's execution can call.
pub struct ContractCryptoVerifier {
    pub zk_verifier: ZKProofVerifier,
    pub bls_verifier: BLSVerifier,
}

/// Registry after registering each (network, key) pair in order.
pub open spec fn register_all(m: Map<Seq<char>, PublicKey>, s: Seq<(String, PublicKey)>) -> Map<Seq<char>, PublicKey>
    decreases s.len(),
{
    if s.len() == 0 {
        m
    } else {
        register_all(m, s.drop_last()).insert(s.last().0@, s.last().1)
    }
}

impl ContractCryptoVerifier {
    pub fn new() -> (v: Self)
        ensures
            v.zk_verifier.settlement_key() is None,
            v.zk_verifier.privacy_key() is None,
            v.bls_verifier.operators() == Map::<Seq<char>, PublicKey>::empty(),
    {
        ContractCryptoVerifier { zk_verifier: ZKProofVerifier::new(), bls_verifier: BLSVerifier::new() }
    }

    /// Loads both circuit keys, then registers the operators' keys in order;
    /// stops at the first key that does not decode.
    pub fn initialize_keys(&mut self, settlement_vk: &[u8], cdr_privacy_vk: &[u8], operator_keys: Vec<(String, PublicKey)>) -> (r: Result<()>)
        ensures
            (vk_decodes(settlement_vk@) && vk_decodes(cdr_privacy_vk@)) ==> {
                &&& r is Ok
                &&& final(self).zk_verifier.settlement_key() == Some(settlement_vk@)
                &&& final(self).zk_verifier.privacy_key() == Some(cdr_privacy_vk@)
                &&& final(self).bls_verifier.operators() == register_all(old(self).bls_verifier.operators(), operator_keys@)
            },
            !(vk_decodes(settlement_vk@) && vk_decodes(cdr_privacy_vk@)) ==> (r matches Err(BlockchainError::InvalidProof)
                && final(self).bls_verifier.operators() == old(self).bls_verifier.operators()),
    {
        self.zk_verifier.load_settlement_key(settlement_vk)?;
        self.zk_verifier.load_cdr_privacy_key(cdr_privacy_vk)?;
        let ghost start = self.bls_verifier.operators();
        let mut keys = operator_keys;
        let ghost all = keys@;
        let ghost mut done: int = 0;
        while keys.len() > 0
            invariant
                0 <= done <= all.len(),
                keys@ == all.subrange(done, all.len() as int),
                self.bls_verifier.operators() == register_all(start, all.subrange(0, done)),
                self.zk_verifier.settlement_key() == Some(settlement_vk@),
                self.zk_verifier.privacy_key() == Some(cdr_privacy_vk@),
            decreases keys@.len(),
        {
            let p = keys.remove(0);
            proof {
                assert(all.subrange(0, done + 1).drop_last() =~= all.subrange(0, done));
                assert(keys@ =~= all.subrange(done + 1, all.len() as int));
                done = done + 1;
            }
            self.bls_verifier.register_operator(p.0, p.1);
        }
        proof {
            assert(all.subrange(0, all.len() as int) =~= all);
        }
        Ok(())
    }

    /// Checks a settlement transaction: the settlement proof, then each
    /// privacy proof, then the networks' aggregate signature.
    pub fn verify_settlement_transaction(
        &self,
        settlement_proof: &[u8],
        settlement_inputs: &SettlementProofInputs,
        cdr_proofs: &[(Vec<u8>, CDRPrivacyInputs)],
        multi_sig: &[u8],
        signing_networks: &[String],
        message: &[u8],
    ) -> (r: Result<bool>)
        ensures
            r matches Ok(true) ==> {
                &&& zk_check(self.zk_verifier.settlement_key(), settlement_proof@, settlement_fields(*settlement_inputs)) == Ok::<bool, Seq<char>>(true)
                &&& forall|i: int| 0 <= i < cdr_proofs@.len() ==> zk_check(
                    self.zk_verifier.privacy_key(),
                    (#[trigger] cdr_proofs@[i]).0@,
                    privacy_fields(cdr_proofs@[i].1),
                ) == Ok::<bool, Seq<char>>(true)
            },
            zk_check(self.zk_verifier.settlement_key(), settlement_proof@, settlement_fields(*settlement_inputs)) == Ok::<bool, Seq<char>>(false)
                ==> r matches Ok(false),
    {
        if !self.zk_verifier.verify_settlement_proof(settlement_proof, settlement_inputs)? {
            return Ok(false);
        }
        let mut i: usize = 0;
        while i < cdr_proofs.len()
            invariant
                0 <= i <= cdr_proofs@.len(),
                zk_check(self.zk_verifier.settlement_key(), settlement_proof@, settlement_fields(*settlement_inputs)) == Ok::<bool, Seq<char>>(true),
                forall|j: int| 0 <= j < i ==> zk_check(
                    self.zk_verifier.privacy_key(),
                    (#[trigger] cdr_proofs@[j]).0@,
                    privacy_fields(cdr_proofs@[j].1),
                ) == Ok::<bool, Seq<char>>(true),
            decreases cdr_proofs@.len() - i,
        {
            if !self.zk_verifier.verify_cdr_privacy_proof(cdr_proofs[i].0.as_slice(), &cdr_proofs[i].1)? {
                return Ok(false);
            }
            i = i + 1;
        }
        if !self.bls_verifier.verify_aggregate_signature(signing_networks, message, multi_sig)? {
            return Ok(false);
        }
        Ok(true)
    }

    pub fn zk_verifier(&self) -> (v: &ZKProofVerifier)
        ensures
            v == &self.zk_verifier,
    {
        &self.zk_verifier
    }

    pub fn bls_verifier(&self) -> (v: &BLSVerifier)
        ensures
            v == &self.bls_verifier,
    {
        &self.bls_verifier
    }
}

/// A threshold check counts only listed networks, each at most once, and
/// each for a signature of its own that checks out: every network counted
/// is in the list, appears once among those counted, and signed the message
/// validly in one of the given pairs. So a threshold of `t` is met only with
/// `t` distinct listed networks' valid signatures.
pub proof fn law_threshold_counts_distinct_valid_signers(
    keys: Map<Seq<char>, PublicKey>,
    listed: Seq<String>,
    msg: Seq<u8>,
    sigs: Seq<(Seq<char>, Seq<u8>)>,
)
    ensures
        counted_signers(keys, listed, msg, sigs) matches Ok(c) ==> {
            &&& c.no_duplicates()
            &&& forall|i: int| 0 <= i < c.len() ==> named_in(listed, #[trigger] c[i])
            &&& forall|i: int|
                0 <= i < c.len() ==> exists|j: int|
                    0 <= j < sigs.len() && sigs[j].0 == #[trigger] c[i] && contract_sig_check(keys, c[i], msg, sigs[j].1)
                        == Ok::<bool, Seq<char>>(true)
        },
    decreases sigs.len(),
{
    if sigs.len() > 0 {
        let p = sigs.drop_last();
        law_threshold_counts_distinct_valid_signers(keys, listed, msg, p);
        match counted_signers(keys, listed, msg, p) {
            Err(_) => {},
            Ok(done) => {
                let e = sigs.last();
                if named_in(listed, e.0) && !done.contains(e.0) {
                    if contract_sig_check(keys, e.0, msg, e.1) == Ok::<bool, Seq<char>>(true) {
                        let c = done.push(e.0);
                        assert forall|i: int| 0 <= i < c.len() implies exists|j: int|
                            0 <= j < sigs.len() && sigs[j].0 == #[trigger] c[i] && contract_sig_check(keys, c[i], msg, sigs[j].1)
                                == Ok::<bool, Seq<char>>(true) by {
                            if i < done.len() {
                                assert(c[i] == done[i]);
                                let j = choose|j: int|
                                    0 <= j < p.len() && p[j].0 == done[i] && contract_sig_check(keys, done[i], msg, p[j].1)
                                        == Ok::<bool, Seq<char>>(true);
                                assert(sigs[j] == p[j]);
                            } else {
                                assert(sigs[sigs.len() - 1] == e);
                            }
                        }
                        assert forall|i: int| 0 <= i < c.len() implies named_in(listed, #[trigger] c[i]) by {
                            if i < done.len() {
                                assert(c[i] == done[i]);
                            }
                        }
                        assert(c.no_duplicates()) by {
                            assert forall|a: int, b: int| 0 <= a < c.len() && 0 <= b < c.len() && a != b implies c[a] != c[b] by {
                                if a < done.len() && b < done.len() {
                                    assert(c[a] == done[a] && c[b] == done[b]);
                                } else if a < done.len() {
                                    assert(c[a] == done[a]);
                                } else {
                                    assert(c[b] == done[b]);
                                }
                            }
                        }
                    } else {
                        assert forall|i: int| 0 <= i < done.len() implies exists|j: int|
                            0 <= j < sigs.len() && sigs[j].0 == #[trigger] done[i] && contract_sig_check(keys, done[i], msg, sigs[j].1)
                                == Ok::<bool, Seq<char>>(true) by {
                            let j = choose|j: int|
                                0 <= j < p.len() && p[j].0 == done[i] && contract_sig_check(keys, done[i], msg, p[j].1)
                                    == Ok::<bool, Seq<char>>(true);
                            assert(sigs[j] == p[j]);
                        }
                    }
                } else {
                    assert forall|i: int| 0 <= i < done.len() implies exists|j: int|
                        0 <= j < sigs.len() && sigs[j].0 == #[trigger] done[i] && contract_sig_check(keys, done[i], msg, sigs[j].1)
                            == Ok::<bool, Seq<char>>(true) by {
                        let j = choose|j: int|
                            0 <= j < p.len() && p[j].0 == done[i] && contract_sig_check(keys, done[i], msg, p[j].1)
                                == Ok::<bool, Seq<char>>(true);
                        assert(sigs[j] == p[j]);
                    }
                }
            },
        }
    }
}

} // verus!
