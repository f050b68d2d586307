//! Keys, signatures and their aggregates as the chain uses them, over the
//! BLS layer in `bls`.
use vstd::prelude::*;
use crate::primitives::error::error_message;
use crate::primitives::primitives::{hex_lower, Blake2bHash};

pub mod bls;
pub mod bls_mock;
pub mod keys;
pub mod signatures;

use bls::{
    aggregate_public_keys, aggregate_signatures, bls_check, bls_key_gen, pk_aggregate_result, pk_bytes_list,
    sig_aggregate_result, sig_bytes_list, sig_decodes, BLSPrivateKey, BLSPublicKey, BLSSignature,
};

verus! {

/// Errors of key handling, signing and aggregation.
#[derive(Debug)]
pub enum CryptoError {
    InvalidSignature,
    InvalidPublicKey,
    InvalidPrivateKey,
    KeyGenerationFailed(String),
    VerificationFailed(String),
    AggregationFailed(String),
    SerializationError(String),
}

pub type Result<T> = core::result::Result<T, CryptoError>;

/// Message text of an error.
pub open spec fn crypto_message(e: CryptoError) -> Seq<char> {
    match e {
        CryptoError::InvalidSignature => "Invalid signature"@,
        CryptoError::InvalidPublicKey => "Invalid public key"@,
        CryptoError::InvalidPrivateKey => "Invalid private key"@,
        CryptoError::KeyGenerationFailed(s) => "Key generation failed: "@ + s@,
        CryptoError::VerificationFailed(s) => "Signature verification failed: "@ + s@,
        CryptoError::AggregationFailed(s) => "Aggregation failed: "@ + s@,
        CryptoError::SerializationError(s) => "Serialization error: "@ + s@,
    }
}

fn prefixed(prefix: &str, s: &String) -> (r: String)
    ensures
        r@ == prefix@ + s@,
{
    let mut r = prefix.to_string();
    r.append(s.as_str());
    r
}

impl CryptoError {
    pub fn message(&self) -> (m: String)
        ensures
            m@ == crypto_message(*self),
    {
        match self {
            CryptoError::InvalidSignature => "Invalid signature".to_string(),
            CryptoError::InvalidPublicKey => "Invalid public key".to_string(),
            CryptoError::InvalidPrivateKey => "Invalid private key".to_string(),
            CryptoError::KeyGenerationFailed(s) => prefixed("Key generation failed: ", s),
            CryptoError::VerificationFailed(s) => prefixed("Signature verification failed: ", s),
            CryptoError::AggregationFailed(s) => prefixed("Aggregation failed: ", s),
            CryptoError::SerializationError(s) => prefixed("Serialization error: ", s),
        }
    }
}

/// Model of a result: the value, or the error's message.
pub open spec fn crypto_outcome<T>(r: Result<T>) -> core::result::Result<T, Seq<char>> {
    match r {
        Ok(v) => Ok(v),
        Err(e) => Err(crypto_message(e)),
    }
}

/// A private key.
pub struct PrivateKey {
    pub inner: BLSPrivateKey,
}

/// A public key (48 bytes, compressed).
#[derive(Clone, Debug, PartialEq, Eq)]
pub struct PublicKey {
    pub inner: BLSPublicKey,
}

/// A signature (96 bytes, compressed).
#[derive(Clone, Debug, PartialEq, Eq)]
pub struct Signature {
    pub inner: BLSSignature,
}

impl PrivateKey {
    /// A key from fresh randomness.
    pub fn generate() -> (r: Result<Self>)
        ensures
            r matches Ok(k) ==> exists|ikm: Seq<u8>| ikm.len() == 32 && #[trigger] bls_key_gen(ikm) == k.inner.scalar(),
            r matches Err(e) ==> e is KeyGenerationFailed,
    {
        match BLSPrivateKey::generate() {
            Ok(inner) => Ok(PrivateKey { inner }),
            Err(e) => Err(CryptoError::KeyGenerationFailed(e.message())),
        }
    }

    /// A key derived from 32 bytes of key material; other lengths are refused.
    pub fn from_bytes(bytes: &[u8]) -> (r: Result<Self>)
        ensures
            r is Ok <==> bytes@.len() == 32,
            r matches Err(e) ==> e is InvalidPrivateKey,
    {
        match BLSPrivateKey::from_bytes(bytes) {
            Ok(inner) => Ok(PrivateKey { inner }),
            Err(_) => Err(CryptoError::InvalidPrivateKey),
        }
    }

    /// The matching public key.
    pub fn public_key(&self) -> (k: PublicKey)
        ensures
            k.bytes() == crate::crypto::bls::bls_pk_of(self.inner.scalar()),
    {
        PublicKey { inner: self.inner.public_key() }
    }

    /// Signs the message under the consortium's tag.
    pub fn sign(&self, message: &[u8]) -> (r: Result<Signature>)
        ensures
            r matches Ok(sig) && sig.inner.bytes() == crate::crypto::bls::bls_sign_of(
                self.inner.scalar(),
                message@,
                crate::crypto::bls::dst_bytes(),
            ),
    {
        match self.inner.sign(message) {
            Ok(inner) => Ok(Signature { inner }),
            Err(e) => Err(CryptoError::SerializationError(e.message())),
        }
    }

    /// The key's 32 bytes.
    pub fn to_bytes(&self) -> (b: [u8; 32])
        ensures
            b@ == self.inner.scalar(),
    {
        self.inner.to_bytes()
    }
}

impl PublicKey {
    pub open spec fn bytes(&self) -> Seq<u8> {
        self.inner.bytes()
    }

    /// A key from its 48 compressed bytes; other lengths are refused. The
    /// bytes are decoded when the key is used.
    pub fn from_bytes(bytes: &[u8]) -> (r: Result<Self>)
        ensures
            r is Ok <==> bytes@.len() == 48,
            r matches Ok(k) ==> k.bytes() == bytes@,
            r matches Err(e) ==> e is InvalidPublicKey,
    {
        if bytes.len() != 48 {
            return Err(CryptoError::InvalidPublicKey);
        }
        let mut a = [0u8; 48];
        let mut i: usize = 0;
        while i < 48
            invariant
                0 <= i <= 48,
                bytes@.len() == 48,
                forall|j: int| 0 <= j < i ==> a@[j] == bytes@[j],
            decreases 48 - i,
        {
            a[i] = bytes[i];
            i = i + 1;
        }
        assert(a@ =~= bytes@);
        Ok(PublicKey { inner: BLSPublicKey::from_compressed(a) })
    }

    pub fn to_bytes(&self) -> (b: &[u8; 48])
        ensures
            b@ == self.bytes(),
    {
        self.inner.to_bytes()
    }

    pub fn as_bytes(&self) -> (b: &[u8; 48])
        ensures
            b@ == self.bytes(),
    {
        self.inner.to_bytes()
    }

    pub fn to_hex(&self) -> (s: String)
        ensures
            s@ == hex_lower(self.bytes()),
    {
        self.inner.to_hex()
    }

    pub fn compress(&self) -> (c: CompressedPublicKey)
        ensures
            c.inner.bytes() == self.bytes(),
    {
        CompressedPublicKey { inner: self.inner.copy_key() }
    }

    /// Whether `signature` signs `message` under this key; false also when
    /// the key or the signature does not decode.
    pub fn verify(&self, signature: &Signature, message: &[u8]) -> (r: bool)
        ensures
            r == (bls_check(signature.bytes(), self.bytes(), message@) == Ok::<bool, Seq<char>>(true)),
    {
        match signature.inner.verify(&self.inner, message) {
            Ok(b) => b,
            Err(_) => false,
        }
    }

    pub fn copy_key(&self) -> (k: Self)
        ensures
            k.bytes() == self.bytes(),
    {
        PublicKey { inner: self.inner.copy_key() }
    }
}

impl Signature {
    pub open spec fn bytes(&self) -> Seq<u8> {
        self.inner.bytes()
    }

    /// A signature from 96 compressed bytes that decode; refused otherwise.
    pub fn from_bytes(bytes: &[u8]) -> (r: Result<Self>)
        ensures
            r is Ok <==> bytes@.len() == 96 && sig_decodes(bytes@),
            r matches Ok(s) ==> s.bytes() == bytes@,
            r matches Err(e) ==> e is InvalidSignature,
    {
        match BLSSignature::from_bytes(bytes) {
            Ok(inner) => Ok(Signature { inner }),
            Err(_) => Err(CryptoError::InvalidSignature),
        }
    }

    /// Whether this signature signs `message` under `public_key`; refused when
    /// the key or the signature does not decode.
    pub fn verify(&self, public_key: &PublicKey, message: &[u8]) -> (r: Result<bool>)
        ensures
            match bls_check(self.bytes(), public_key.bytes(), message@) {
                Ok(b) => r == Ok::<bool, CryptoError>(b),
                Err(m) => crypto_outcome(r) == Err::<bool, Seq<char>>("Signature verification failed: "@ + m),
            },
    {
        match self.inner.verify(&public_key.inner, message) {
            Ok(b) => Ok(b),
            Err(e) => Err(CryptoError::VerificationFailed(e.message())),
        }
    }

    pub fn to_bytes(&self) -> (b: &[u8; 96])
        ensures
            b@ == self.bytes(),
    {
        self.inner.to_bytes()
    }

    pub fn to_hex(&self) -> (s: String)
        ensures
            s@ == hex_lower(self.bytes()),
    {
        self.inner.to_hex()
    }

    pub fn copy_sig(&self) -> (s: Self)
        ensures
            s.bytes() == self.bytes(),
    {
        Signature { inner: self.inner.copy_sig() }
    }
}

/// An aggregate of signatures.
#[derive(Clone, Debug)]
pub struct AggregateSignature {
    pub signature: BLSSignature,
}

/// An aggregate of public keys.
#[derive(Clone, Debug)]
pub struct AggregatePublicKey {
    pub public_key: BLSPublicKey,
}

/// Compressed forms of a list of signatures.
pub open spec fn signature_bytes(s: Seq<Signature>) -> Seq<Seq<u8>> {
    s.map_values(|x: Signature| x.bytes())
}

/// Compressed forms of a list of public keys.
pub open spec fn public_key_bytes(s: Seq<PublicKey>) -> Seq<Seq<u8>> {
    s.map_values(|x: PublicKey| x.bytes())
}

impl AggregateSignature {
    /// An aggregate held as 96 bytes that decode; refused otherwise.
    pub fn from_bytes(bytes: &[u8]) -> (r: Result<Self>)
        ensures
            r is Ok <==> bytes@.len() == 96 && sig_decodes(bytes@),
            r matches Ok(s) ==> s.signature.bytes() == bytes@,
            r matches Err(e) ==> e is SerializationError,
    {
        match BLSSignature::from_bytes(bytes) {
            Ok(signature) => Ok(AggregateSignature { signature }),
            Err(e) => Err(CryptoError::SerializationError(e.message())),
        }
    }

    /// Aggregates a non-empty list of signatures.
    pub fn aggregate(signatures: &[Signature]) -> (r: Result<Self>)
        ensures
            signatures@.len() == 0 ==> (r matches Err(CryptoError::AggregationFailed(m)) && m@
                == "No signatures to aggregate"@),
            signatures@.len() > 0 ==> match sig_aggregate_result(signature_bytes(signatures@)) {
                Ok(a) => (r matches Ok(s) && s.signature.bytes() == a),
                Err(m) => crypto_outcome(r) == Err::<Self, Seq<char>>("Aggregation failed: "@ + m),
            },
    {
        if signatures.len() == 0 {
            return Err(CryptoError::AggregationFailed("No signatures to aggregate".to_string()));
        }
        let mut inner: Vec<BLSSignature> = Vec::new();
        let mut i: usize = 0;
        while i < signatures.len()
            invariant
                0 <= i <= signatures@.len(),
                inner@.len() == i,
                forall|j: int| 0 <= j < i ==> (#[trigger] inner@[j]).bytes() == signatures@[j].bytes(),
            decreases signatures@.len() - i,
        {
            inner.push(signatures[i].inner.copy_sig());
            i = i + 1;
        }
        assert(sig_bytes_list(inner@) =~= signature_bytes(signatures@));
        match aggregate_signatures(inner.as_slice()) {
            Ok(signature) => Ok(AggregateSignature { signature }),
            Err(e) => Err(CryptoError::AggregationFailed(e.message())),
        }
    }

    /// Whether this aggregate signs the hash's bytes under the aggregate key;
    /// refused when the key or the signature does not decode.
    pub fn verify(&self, public_key: &AggregatePublicKey, message_hash: &Blake2bHash) -> (r: Result<bool>)
        ensures
            match bls_check(self.signature.bytes(), public_key.public_key.bytes(), message_hash@) {
                Ok(b) => r == Ok::<bool, CryptoError>(b),
                Err(m) => crypto_outcome(r) == Err::<bool, Seq<char>>("Signature verification failed: "@ + m),
            },
    {
        match self.signature.verify(&public_key.public_key, message_hash.0.as_slice()) {
            Ok(b) => Ok(b),
            Err(e) => Err(CryptoError::VerificationFailed(e.message())),
        }
    }
}

impl AggregatePublicKey {
    /// Aggregates a non-empty list of public keys.
    pub fn aggregate(keys: &[PublicKey]) -> (r: Result<Self>)
        ensures
            keys@.len() == 0 ==> (r matches Err(CryptoError::AggregationFailed(m)) && m@
                == "No public keys to aggregate"@),
            keys@.len() > 0 ==> match pk_aggregate_result(public_key_bytes(keys@)) {
                Ok(a) => (r matches Ok(k) && k.public_key.bytes() == a),
                Err(m) => crypto_outcome(r) == Err::<Self, Seq<char>>("Aggregation failed: "@ + m),
            },
    {
        if keys.len() == 0 {
            return Err(CryptoError::AggregationFailed("No public keys to aggregate".to_string()));
        }
        let mut inner: Vec<BLSPublicKey> = Vec::new();
        let mut i: usize = 0;
        while i < keys.len()
            invariant
                0 <= i <= keys@.len(),
                inner@.len() == i,
                forall|j: int| 0 <= j < i ==> (#[trigger] inner@[j]).bytes() == keys@[j].bytes(),
            decreases keys@.len() - i,
        {
            inner.push(keys[i].inner.copy_key());
            i = i + 1;
        }
        assert(pk_bytes_list(inner@) =~= public_key_bytes(keys@));
        match aggregate_public_keys(inner.as_slice()) {
            Ok(public_key) => Ok(AggregatePublicKey { public_key }),
            Err(e) => Err(CryptoError::AggregationFailed(e.message())),
        }
    }

    /// Whether the aggregate signature signs the hash's bytes under this key;
    /// false also when either does not decode.
    pub fn verify(&self, signature: &AggregateSignature, message_hash: &Blake2bHash) -> (r: bool)
        ensures
            r == (bls_check(signature.signature.bytes(), self.public_key.bytes(), message_hash@) == Ok::<
                bool,
                Seq<char>,
            >(true)),
    {
        match signature.signature.verify(&self.public_key, message_hash.0.as_slice()) {
            Ok(b) => b,
            Err(_) => false,
        }
    }
}

/// A public key kept for storage.
#[derive(Clone, Debug)]
pub struct CompressedPublicKey {
    pub inner: BLSPublicKey,
}

/// A validator's signing key pair.
pub struct ValidatorKey {
    pub private_key: BLSPrivateKey,
    pub public_key: BLSPublicKey,
}

impl ValidatorKey {
    /// The pair of a private key and its public key.
    pub fn new(private_key: BLSPrivateKey) -> (v: Self)
        ensures
            v.private_key.scalar() == private_key.scalar(),
            v.public_key.bytes() == crate::crypto::bls::bls_pk_of(private_key.scalar()),
    {
        let public_key = private_key.public_key();
        ValidatorKey { private_key, public_key }
    }
}

} // verus!
