//! BLS12-381 keys and signatures (public keys in G1, signatures in G2)
//! through the `blst` crate.
use vstd::prelude::*;
use vstd::string::StringSliceAdditionalSpecFns;
use blst::min_pk::{AggregatePublicKey, AggregateSignature, PublicKey, SecretKey, Signature};
use blst::BLST_ERROR;
use crate::collections::VecMap;
use crate::entropy::random_32;
use crate::primitives::error::{error_message, BlockchainError, Result};
use crate::primitives::primitives::{hex_encode, hex_lower};

verus! {

/// Domain separation tag of the consortium's signatures.
pub open spec fn dst_bytes() -> Seq<u8> {
    vstd::utf8::encode_utf8("SP_CDR_CONSORTIUM_BLS_SIG"@)
}

fn dst() -> (d: Vec<u8>)
    ensures
        d@ == dst_bytes(),
{
    "SP_CDR_CONSORTIUM_BLS_SIG".as_bytes_vec()
}

/// Whether bytes decode to a public key (`blst::min_pk::PublicKey::from_bytes`).
pub uninterp spec fn pk_decodes(b: Seq<u8>) -> bool;

/// Whether bytes decode to a signature (`blst::min_pk::Signature::from_bytes`).
pub uninterp spec fn sig_decodes(b: Seq<u8>) -> bool;

/// Outcome of checking a signature on a message under a public key and tag.
pub uninterp spec fn bls_verifies(sig: Seq<u8>, pk: Seq<u8>, msg: Seq<u8>, dst: Seq<u8>) -> bool;

/// Compressed aggregate of signatures, when the aggregation succeeds.
pub uninterp spec fn bls_sig_aggregate(sigs: Seq<Seq<u8>>) -> Option<Seq<u8>>;

/// Compressed aggregate of public keys, when the aggregation succeeds.
pub uninterp spec fn bls_pk_aggregate(pks: Seq<Seq<u8>>) -> Option<Seq<u8>>;

/// `blst::min_pk::PublicKey::from_bytes`: whether the bytes decode to a key.
#[verifier::external_body]
fn blst_pk_decodes(b: &[u8; 48]) -> (ok: bool)
    ensures
        ok == pk_decodes(b@),
{
    PublicKey::from_bytes(b).is_ok()
}

/// `blst::min_pk::Signature::from_bytes`: whether the bytes decode to a signature.
#[verifier::external_body]
fn blst_sig_decodes(b: &[u8; 96]) -> (ok: bool)
    ensures
        ok == sig_decodes(b@),
{
    Signature::from_bytes(b).is_ok()
}

/// `blst::min_pk::Signature::verify` with group checks on, on decoded
/// arguments: whether the signature is valid. The contract names the outcome.
#[verifier::external_body]
fn blst_verify(sig: &[u8; 96], pk: &[u8; 48], msg: &[u8], dst: &[u8]) -> (ok: bool)
    requires
        pk_decodes(pk@),
        sig_decodes(sig@),
    ensures
        ok == bls_verifies(sig@, pk@, msg@, dst@),
{
    let pk = PublicKey::from_bytes(pk).unwrap();
    let sig = Signature::from_bytes(sig).unwrap();
    sig.verify(true, msg, dst, &[], &pk, true) == BLST_ERROR::BLST_SUCCESS
}

/// `blst::min_pk::AggregateSignature::aggregate` with group checks on, over
/// decoded signatures, compressed. The contract names the outcome.
#[verifier::external_body]
fn blst_aggregate_sigs(sigs: &Vec<[u8; 96]>) -> (r: Option<[u8; 96]>)
    requires
        sigs@.len() > 0,
        forall|i: int| 0 <= i < sigs@.len() ==> sig_decodes(#[trigger] sigs@[i]@),
    ensures
        r matches Some(a) ==> bls_sig_aggregate(sigs@.map_values(|s: [u8; 96]| s@)) == Some(a@),
        r is None ==> bls_sig_aggregate(sigs@.map_values(|s: [u8; 96]| s@)) is None,
{
    let decoded: Vec<Signature> = sigs.iter().map(|s| Signature::from_bytes(s).unwrap()).collect();
    let refs: Vec<&Signature> = decoded.iter().collect();
    AggregateSignature::aggregate(&refs, true).ok().map(|a| a.to_signature().compress())
}

/// `blst::min_pk::AggregatePublicKey::aggregate` with validation on, over
/// decoded keys, compressed. The contract names the outcome.
#[verifier::external_body]
fn blst_aggregate_pks(pks: &Vec<[u8; 48]>) -> (r: Option<[u8; 48]>)
    requires
        pks@.len() > 0,
        forall|i: int| 0 <= i < pks@.len() ==> pk_decodes(#[trigger] pks@[i]@),
    ensures
        r matches Some(a) ==> bls_pk_aggregate(pks@.map_values(|s: [u8; 48]| s@)) == Some(a@),
        r is None ==> bls_pk_aggregate(pks@.map_values(|s: [u8; 48]| s@)) is None,
{
    let decoded: Vec<PublicKey> = pks.iter().map(|s| PublicKey::from_bytes(s).unwrap()).collect();
    let refs: Vec<&PublicKey> = decoded.iter().collect();
    AggregatePublicKey::aggregate(&refs, true).ok().map(|a| a.to_public_key().compress())
}

/// Whether 32 bytes are the serialized scalar of a secret key, so that
/// `blst::min_pk::SecretKey::from_bytes` takes them.
pub uninterp spec fn sk_valid(b: Seq<u8>) -> bool;

/// Serialized scalar of the secret key that key material derives.
pub uninterp spec fn bls_key_gen(ikm: Seq<u8>) -> Seq<u8>;

/// Compressed public key of a secret key, given by its scalar.
pub uninterp spec fn bls_pk_of(sk: Seq<u8>) -> Seq<u8>;

/// Compressed signature of a message under a secret key and tag.
pub uninterp spec fn bls_sign_of(sk: Seq<u8>, msg: Seq<u8>, dst: Seq<u8>) -> Seq<u8>;

/// `blst::min_pk::SecretKey::key_gen` with empty key info, serialized by
/// `SecretKey::to_bytes`: a key whenever the input key material has at least
/// 32 bytes; its bytes depend on the key material alone and are taken back
/// by `SecretKey::from_bytes`.
#[verifier::external_body]
fn blst_key_gen(ikm: &[u8]) -> (r: Option<[u8; 32]>)
    ensures
        r is Some <==> ikm@.len() >= 32,
        r matches Some(b) ==> b@ == bls_key_gen(ikm@) && sk_valid(b@),
{
    SecretKey::key_gen(ikm, &[]).ok().map(|sk| sk.to_bytes())
}

/// `blst::min_pk::SecretKey::sk_to_pk` of the key with the given scalar,
/// compressed. The contract names the bytes.
#[verifier::external_body]
fn blst_sk_to_pk(sk: &[u8; 32]) -> (pk: [u8; 48])
    requires
        sk_valid(sk@),
    ensures
        pk@ == bls_pk_of(sk@),
{
    SecretKey::from_bytes(sk).unwrap().sk_to_pk().compress()
}

/// `blst::min_pk::SecretKey::sign` of the key with the given scalar, with
/// empty augmentation, compressed. The contract names the bytes.
#[verifier::external_body]
fn blst_sign(sk: &[u8; 32], msg: &[u8], dst: &[u8]) -> (sig: [u8; 96])
    requires
        sk_valid(sk@),
    ensures
        sig@ == bls_sign_of(sk@, msg@, dst@),
{
    SecretKey::from_bytes(sk).unwrap().sign(msg, dst, &[]).compress()
}

fn copy48(b: &[u8]) -> (a: [u8; 48])
    requires
        b@.len() == 48,
    ensures
        a@ == b@,
{
    let mut a = [0u8; 48];
    let mut i: usize = 0;
    while i < 48
        invariant
            0 <= i <= 48,
            b@.len() == 48,
            forall|j: int| 0 <= j < i ==> a@[j] == b@[j],
        decreases 48 - i,
    {
        a[i] = b[i];
        i = i + 1;
    }
    assert(a@ =~= b@);
    a
}

fn copy96(b: &[u8]) -> (a: [u8; 96])
    requires
        b@.len() == 96,
    ensures
        a@ == b@,
{
    let mut a = [0u8; 96];
    let mut i: usize = 0;
    while i < 96
        invariant
            0 <= i <= 96,
            b@.len() == 96,
            forall|j: int| 0 <= j < i ==> a@[j] == b@[j],
        decreases 96 - i,
    {
        a[i] = b[i];
        i = i + 1;
    }
    assert(a@ =~= b@);
    a
}

/// `Err(BlockchainError::Crypto(m))` with message `m`, as a model.
pub open spec fn crypto_err<T>(m: Seq<char>) -> core::result::Result<T, Seq<char>> {
    Err("Cryptography error: "@ + m)
}

/// Model of a result: the value, or the error's message.
pub open spec fn outcome<T>(r: Result<T>) -> core::result::Result<T, Seq<char>> {
    match r {
        Ok(v) => Ok(v),
        Err(e) => Err(error_message(e)),
    }
}

/// A private key, held as its serialized scalar.
pub struct BLSPrivateKey {
    scalar: [u8; 32],
}

/// A compressed public key (48 bytes).
#[derive(Clone, Debug, PartialEq, Eq)]
pub struct BLSPublicKey {
    compressed: [u8; 48],
}

/// A compressed signature (96 bytes).
#[derive(Clone, Debug, PartialEq, Eq)]
pub struct BLSSignature {
    compressed: [u8; 96],
}

/// Errors of key handling and signing.
#[derive(Debug)]
pub enum BLSError {
    InvalidPrivateKey,
    InvalidPublicKey,
    InvalidSignature,
    KeyGenerationFailed(String),
    VerificationFailed,
    AggregationFailed(String),
}

impl BLSPrivateKey {
    /// The key's scalar bytes.
    pub closed spec fn scalar(&self) -> Seq<u8> {
        self.scalar@
    }

    /// The bytes are those of a secret key.
    #[verifier::type_invariant]
    closed spec fn valid(&self) -> bool {
        sk_valid(self.scalar@)
    }

    /// A key derived (see `from_bytes`) from 32 bytes of fresh random key
    /// material; refused when the system's random source fails.
    pub fn generate() -> (r: Result<Self>)
        ensures
            r matches Ok(k) ==> exists|ikm: Seq<u8>| ikm.len() == 32 && #[trigger] bls_key_gen(ikm) == k.scalar(),
            r matches Err(e) ==> e matches BlockchainError::Crypto(m) && m@.len() >= 12 && m@.subrange(
                0,
                12,
            ) == "RNG failed: "@,
    {
        match random_32() {
            Ok(ikm) => {
                match Self::from_bytes(ikm.as_slice()) {
                    Ok(k) => {
                        assert(bls_key_gen(ikm@) == k.scalar());
                        Ok(k)
                    },
                    Err(_) => {
                        proof {
                            assert(false);
                        }
                        Err(BlockchainError::Crypto("BLS key generation failed".to_string()))
                    },
                }
            },
            Err(e) => {
                let mut m = "RNG failed: ".to_string();
                m.append(e.as_str());
                proof {
                    reveal_strlit("RNG failed: ");
                    assert(m@.subrange(0, 12) =~= "RNG failed: "@);
                }
                Err(BlockchainError::Crypto(m))
            },
        }
    }

    /// A key derived from 32 bytes of key material; other lengths are refused.
    pub fn from_bytes(bytes: &[u8]) -> (r: Result<Self>)
        ensures
            r is Ok <==> bytes@.len() == 32,
            r matches Ok(k) ==> k.scalar() == bls_key_gen(bytes@),
            bytes@.len() != 32 ==> outcome(r) == crypto_err::<BLSPrivateKey>("BLS private key must be 32 bytes"@),
    {
        if bytes.len() != 32 {
            return Err(BlockchainError::Crypto("BLS private key must be 32 bytes".to_string()));
        }
        match blst_key_gen(bytes) {
            Some(scalar) => Ok(BLSPrivateKey { scalar }),
            None => Err(BlockchainError::Crypto("Invalid BLS private key bytes".to_string())),
        }
    }

    /// The matching public key.
    pub fn public_key(&self) -> (k: BLSPublicKey)
        ensures
            k.bytes() == bls_pk_of(self.scalar()),
    {
        proof {
            use_type_invariant(self);
        }
        BLSPublicKey { compressed: blst_sk_to_pk(&self.scalar) }
    }

    /// Signs the message under the consortium's tag.
    pub fn sign(&self, message: &[u8]) -> (r: Result<BLSSignature>)
        ensures
            r matches Ok(s) && s.bytes() == bls_sign_of(self.scalar(), message@, dst_bytes()),
    {
        proof {
            use_type_invariant(self);
        }
        let d = dst();
        Ok(BLSSignature { compressed: blst_sign(&self.scalar, message, d.as_slice()) })
    }

    /// The key's 32 bytes.
    pub fn to_bytes(&self) -> (b: [u8; 32])
        ensures
            b@ == self.scalar(),
    {
        self.scalar
    }

    /// A copy of the key.
    pub fn clone_key(&self) -> (k: Self)
        ensures
            k.scalar() == self.scalar(),
    {
        proof {
            use_type_invariant(self);
        }
        BLSPrivateKey { scalar: self.scalar }
    }
}

impl BLSPublicKey {
    pub closed spec fn bytes(&self) -> Seq<u8> {
        self.compressed@
    }

    /// Key from its compressed form; refused unless 48 bytes that decode.
    pub fn from_bytes(bytes: &[u8]) -> (r: Result<Self>)
        ensures
            r matches Ok(k) ==> k.bytes() == bytes@,
            r is Ok <==> bytes@.len() == 48 && pk_decodes(bytes@),
            bytes@.len() != 48 ==> outcome(r) == crypto_err::<BLSPublicKey>("BLS public key must be 48 bytes"@),
            bytes@.len() == 48 && !pk_decodes(bytes@) ==> outcome(r) == crypto_err::<BLSPublicKey>("Invalid BLS public key"@),
    {
        if bytes.len() != 48 {
            return Err(BlockchainError::Crypto("BLS public key must be 48 bytes".to_string()));
        }
        let compressed = copy48(bytes);
        if !blst_pk_decodes(&compressed) {
            return Err(BlockchainError::Crypto("Invalid BLS public key".to_string()));
        }
        Ok(BLSPublicKey { compressed })
    }

    /// Key holding 48 bytes as they are, decoded only when used.
    pub fn from_compressed(bytes: [u8; 48]) -> (k: Self)
        ensures
            k.bytes() == bytes@,
    {
        BLSPublicKey { compressed: bytes }
    }

    pub fn to_bytes(&self) -> (b: &[u8; 48])
        ensures
            b@ == self.bytes(),
    {
        &self.compressed
    }

    pub fn to_hex(&self) -> (s: String)
        ensures
            s@ == hex_lower(self.bytes()),
    {
        hex_encode(self.compressed.as_slice())
    }

    pub fn copy_key(&self) -> (k: Self)
        ensures
            k.bytes() == self.bytes(),
            k == *self,
    {
        BLSPublicKey { compressed: self.compressed }
    }
}

/// Outcome of checking a compressed signature on a message under a
/// compressed public key.
pub open spec fn bls_check(sig: Seq<u8>, pk: Seq<u8>, msg: Seq<u8>) -> core::result::Result<bool, Seq<char>> {
    if !pk_decodes(pk) {
        crypto_err("Invalid public key for verification"@)
    } else if !sig_decodes(sig) {
        crypto_err("Invalid signature for verification"@)
    } else {
        Ok(bls_verifies(sig, pk, msg, dst_bytes()))
    }
}

impl BLSSignature {
    pub closed spec fn bytes(&self) -> Seq<u8> {
        self.compressed@
    }

    /// Signature from its compressed form; refused unless 96 bytes that decode.
    pub fn from_bytes(bytes: &[u8]) -> (r: Result<Self>)
        ensures
            r matches Ok(s) ==> s.bytes() == bytes@,
            r is Ok <==> bytes@.len() == 96 && sig_decodes(bytes@),
            bytes@.len() != 96 ==> outcome(r) == crypto_err::<BLSSignature>("BLS signature must be 96 bytes"@),
            bytes@.len() == 96 && !sig_decodes(bytes@) ==> outcome(r) == crypto_err::<BLSSignature>(
                "Invalid BLS signature format"@,
            ),
    {
        if bytes.len() != 96 {
            return Err(BlockchainError::Crypto("BLS signature must be 96 bytes".to_string()));
        }
        let compressed = copy96(bytes);
        if !blst_sig_decodes(&compressed) {
            return Err(BlockchainError::Crypto("Invalid BLS signature format".to_string()));
        }
        Ok(BLSSignature { compressed })
    }

    /// Signature holding 96 bytes as they are, decoded only when used.
    pub fn from_compressed(bytes: [u8; 96]) -> (s: Self)
        ensures
            s.bytes() == bytes@,
    {
        BLSSignature { compressed: bytes }
    }

    /// Whether this signature signs `message` under `public_key`; refused when
    /// the key or the signature does not decode.
    pub fn verify(&self, public_key: &BLSPublicKey, message: &[u8]) -> (r: Result<bool>)
        ensures
            outcome(r) == bls_check(self.bytes(), public_key.bytes(), message@),
    {
        if !blst_pk_decodes(&public_key.compressed) {
            return Err(BlockchainError::Crypto("Invalid public key for verification".to_string()));
        }
        if !blst_sig_decodes(&self.compressed) {
            return Err(BlockchainError::Crypto("Invalid signature for verification".to_string()));
        }
        let d = dst();
        Ok(blst_verify(&self.compressed, &public_key.compressed, message, d.as_slice()))
    }

    pub fn to_bytes(&self) -> (b: &[u8; 96])
        ensures
            b@ == self.bytes(),
    {
        &self.compressed
    }

    pub fn to_hex(&self) -> (s: String)
        ensures
            s@ == hex_lower(self.bytes()),
    {
        hex_encode(self.compressed.as_slice())
    }

    pub fn copy_sig(&self) -> (s: Self)
        ensures
            s.bytes() == self.bytes(),
    {
        BLSSignature { compressed: self.compressed }
    }
}

/// Outcome of aggregating compressed signatures.
pub open spec fn sig_aggregate_result(sigs: Seq<Seq<u8>>) -> core::result::Result<Seq<u8>, Seq<char>> {
    if sigs.len() == 0 {
        crypto_err::<Seq<u8>>("No signatures to aggregate"@)
    } else if exists|i: int| 0 <= i < sigs.len() && !sig_decodes(#[trigger] sigs[i]) {
        crypto_err::<Seq<u8>>("Invalid signature for aggregation"@)
    } else {
        match bls_sig_aggregate(sigs) {
            Some(a) => Ok(a),
            None => crypto_err::<Seq<u8>>("Signature aggregation failed"@),
        }
    }
}

/// Outcome of aggregating compressed public keys.
pub open spec fn pk_aggregate_result(pks: Seq<Seq<u8>>) -> core::result::Result<Seq<u8>, Seq<char>> {
    if pks.len() == 0 {
        crypto_err::<Seq<u8>>("No public keys to aggregate"@)
    } else if exists|i: int| 0 <= i < pks.len() && !pk_decodes(#[trigger] pks[i]) {
        crypto_err::<Seq<u8>>("Invalid public key for aggregation"@)
    } else {
        match bls_pk_aggregate(pks) {
            Some(a) => Ok(a),
            None => crypto_err::<Seq<u8>>("Public key aggregation failed"@),
        }
    }
}

/// Compressed forms of a list of signatures.
pub open spec fn sig_bytes_list(s: Seq<BLSSignature>) -> Seq<Seq<u8>> {
    s.map_values(|x: BLSSignature| x.bytes())
}

/// Compressed forms of a list of public keys.
pub open spec fn pk_bytes_list(s: Seq<BLSPublicKey>) -> Seq<Seq<u8>> {
    s.map_values(|x: BLSPublicKey| x.bytes())
}

/// Aggregates signatures into one.
pub fn aggregate_signatures(signatures: &[BLSSignature]) -> (r: Result<BLSSignature>)
    ensures
        match r {
            Ok(a) => sig_aggregate_result(sig_bytes_list(signatures@)) == Ok::<Seq<u8>, Seq<char>>(a.bytes()),
            Err(e) => sig_aggregate_result(sig_bytes_list(signatures@)) == Err::<Seq<u8>, Seq<char>>(
                error_message(e),
            ),
        },
{
    if signatures.len() == 0 {
        return Err(BlockchainError::Crypto("No signatures to aggregate".to_string()));
    }
    let mut raw: Vec<[u8; 96]> = Vec::new();
    let mut i: usize = 0;
    while i < signatures.len()
        invariant
            0 <= i <= signatures@.len(),
            raw@.len() == i,
            forall|j: int| 0 <= j < i ==> (#[trigger] raw@[j])@ == signatures@[j].bytes(),
            forall|j: int| 0 <= j < i ==> sig_decodes(signatures@[j].bytes()),
        decreases signatures@.len() - i,
    {
        if !blst_sig_decodes(&signatures[i].compressed) {
            proof {
                assert(!sig_decodes(sig_bytes_list(signatures@)[i as int]));
            }
            return Err(BlockchainError::Crypto("Invalid signature for aggregation".to_string()));
        }
        raw.push(signatures[i].compressed);
        i = i + 1;
    }
    assert(raw@.map_values(|s: [u8; 96]| s@) =~= sig_bytes_list(signatures@));
    match blst_aggregate_sigs(&raw) {
        Some(a) => Ok(BLSSignature { compressed: a }),
        None => Err(BlockchainError::Crypto("Signature aggregation failed".to_string())),
    }
}

/// Aggregates public keys into one.
pub fn aggregate_public_keys(public_keys: &[BLSPublicKey]) -> (r: Result<BLSPublicKey>)
    ensures
        match r {
            Ok(a) => pk_aggregate_result(pk_bytes_list(public_keys@)) == Ok::<Seq<u8>, Seq<char>>(a.bytes()),
            Err(e) => pk_aggregate_result(pk_bytes_list(public_keys@)) == Err::<Seq<u8>, Seq<char>>(
                error_message(e),
            ),
        },
{
    if public_keys.len() == 0 {
        return Err(BlockchainError::Crypto("No public keys to aggregate".to_string()));
    }
    let mut raw: Vec<[u8; 48]> = Vec::new();
    let mut i: usize = 0;
    while i < public_keys.len()
        invariant
            0 <= i <= public_keys@.len(),
            raw@.len() == i,
            forall|j: int| 0 <= j < i ==> (#[trigger] raw@[j])@ == public_keys@[j].bytes(),
            forall|j: int| 0 <= j < i ==> pk_decodes(public_keys@[j].bytes()),
        decreases public_keys@.len() - i,
    {
        if !blst_pk_decodes(&public_keys[i].compressed) {
            proof {
                assert(!pk_decodes(pk_bytes_list(public_keys@)[i as int]));
            }
            return Err(BlockchainError::Crypto("Invalid public key for aggregation".to_string()));
        }
        raw.push(public_keys[i].compressed);
        i = i + 1;
    }
    assert(raw@.map_values(|s: [u8; 48]| s@) =~= pk_bytes_list(public_keys@));
    match blst_aggregate_pks(&raw) {
        Some(a) => Ok(BLSPublicKey { compressed: a }),
        None => Err(BlockchainError::Crypto("Public key aggregation failed".to_string())),
    }
}

/// Registry of operators' public keys, checking their signatures.
pub struct BLSVerifier {
    sp_operators: VecMap<String, BLSPublicKey>,
}

/// Outcome of checking an operator's signature against the registry.
pub open spec fn operator_check(keys: Map<Seq<char>, BLSPublicKey>, name: Seq<char>, msg: Seq<u8>, sig: Seq<u8>) -> core::result::Result<bool, Seq<char>> {
    if !keys.contains_key(name) {
        crypto_err::<bool>("Unknown operator: "@ + name)
    } else if sig.len() != 96 {
        crypto_err("BLS signature must be 96 bytes"@)
    } else if !sig_decodes(sig) {
        crypto_err("Invalid BLS signature format"@)
    } else {
        bls_check(sig, keys[name].bytes(), msg)
    }
}

impl BLSVerifier {
    pub closed spec fn operators(&self) -> Map<Seq<char>, BLSPublicKey> {
        self.sp_operators@
    }

    pub fn new() -> (v: Self)
        ensures
            v.operators() == Map::<Seq<char>, BLSPublicKey>::empty(),
    {
        BLSVerifier { sp_operators: VecMap::new() }
    }

    /// Registers (or replaces) an operator's key.
    pub fn register_operator(&mut self, operator_name: &str, public_key: BLSPublicKey)
        ensures
            final(self).operators() == old(self).operators().insert(operator_name@, public_key),
    {
        self.sp_operators.insert(operator_name.to_string(), public_key);
    }

    /// Checks an operator's signature on a message.
    pub fn verify_operator_signature(&self, operator_name: &str, message: &[u8], signature_bytes: &[u8]) -> (r: Result<bool>)
        ensures
            outcome(r) == operator_check(self.operators(), operator_name@, message@, signature_bytes@),
    {
        let name = operator_name.to_string();
        let public_key = match self.sp_operators.get(&name) {
            Some(k) => k,
            None => {
                let mut m = "Unknown operator: ".to_string();
                m.append(operator_name);
                return Err(BlockchainError::Crypto(m));
            },
        };
        let signature = BLSSignature::from_bytes(signature_bytes)?;
        signature.verify(public_key, message)
    }

    /// Checks an aggregate signature of the named operators on a message.
    pub fn verify_multi_party_signature(&self, operator_names: &[String], message: &[u8], aggregate_signature_bytes: &[u8]) -> (r: Result<bool>)
        ensures
            operator_names@.len() == 0 ==> outcome(r) == crypto_err::<bool>("No operators specified"@),
            (exists|i: int| 0 <= i < operator_names@.len() && !self.operators().contains_key(#[trigger] operator_names@[i]@)) ==> r is Err,
            r matches Ok(b) ==> {
                let keys = operator_names@.map_values(|n: String| self.operators()[n@].bytes());
                &&& operator_names@.len() > 0
                &&& forall|i: int| 0 <= i < operator_names@.len() ==> self.operators().contains_key(#[trigger] operator_names@[i]@)
                &&& pk_aggregate_result(keys) matches Ok(agg)
                &&& sig_decodes(aggregate_signature_bytes@)
                &&& bls_check(aggregate_signature_bytes@, agg, message@) == Ok::<bool, Seq<char>>(b)
            },
    {
        if operator_names.len() == 0 {
            return Err(BlockchainError::Crypto("No operators specified".to_string()));
        }
        let mut keys: Vec<BLSPublicKey> = Vec::new();
        let mut i: usize = 0;
        while i < operator_names.len()
            invariant
                0 <= i <= operator_names@.len(),
                keys@.len() == i,
                forall|j: int| 0 <= j < i ==> self.operators().contains_key(#[trigger] operator_names@[j]@),
                forall|j: int| 0 <= j < i ==> (#[trigger] keys@[j]).bytes() == self.operators()[operator_names@[j]@].bytes(),
            decreases operator_names@.len() - i,
        {
            match self.sp_operators.get(&operator_names[i]) {
                Some(k) => {
                    keys.push(k.copy_key());
                },
                None => {
                    let mut m = "Unknown operator: ".to_string();
                    m.append(operator_names[i].as_str());
                    proof {
                        assert(!self.operators().contains_key(operator_names@[i as int]@));
                    }
                    return Err(BlockchainError::Crypto(m));
                },
            }
            i = i + 1;
        }
        proof {
            assert(pk_bytes_list(keys@) =~= operator_names@.map_values(|n: String| self.operators()[n@].bytes()));
        }
        let agg = aggregate_public_keys(keys.as_slice())?;
        if aggregate_signature_bytes.len() != 96 {
            return Err(BlockchainError::Crypto("Invalid aggregate signature".to_string()));
        }
        let sig = copy96(aggregate_signature_bytes);
        if !blst_sig_decodes(&sig) {
            return Err(BlockchainError::Crypto("Invalid aggregate signature".to_string()));
        }
        BLSSignature { compressed: sig }.verify(&agg, message)
    }
}

} // verus!
