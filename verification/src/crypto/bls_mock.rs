//! A stand-in for BLS keys and signatures with the same shapes (32-byte
//! private keys, 48-byte public keys, 96-byte signatures) and a transparent
//! construction: a public key carries its private key, a signature carries the
//! signed hash, and aggregates are byte-wise exclusive ors.
use vstd::prelude::*;
use crate::crypto::{crypto_outcome, CryptoError, Result};
use crate::entropy::random_32;
use crate::primitives::primitives::Blake2bHash;

verus! {

/// Hash that signatures sign.
pub type SigHash = Blake2bHash;

/// Equality of two byte strings.
fn bytes_eq(a: &[u8], b: &[u8]) -> (r: bool)
    ensures
        r == (a@ == b@),
{
    if a.len() != b.len() {
        return false;
    }
    let mut i: usize = 0;
    while i < a.len()
        invariant
            0 <= i <= a@.len(),
            a@.len() == b@.len(),
            forall|j: int| 0 <= j < i ==> a@[j] == b@[j],
        decreases a@.len() - i,
    {
        if a[i] != b[i] {
            assert(a@[i as int] != b@[i as int]);
            return false;
        }
        i = i + 1;
    }
    assert(a@ =~= b@);
    true
}

/// Whether every byte is zero.
pub open spec fn all_zero(b: Seq<u8>) -> bool {
    forall|i: int| 0 <= i < b.len() ==> b[i] == 0
}

fn is_all_zero(b: &[u8]) -> (r: bool)
    ensures
        r == all_zero(b@),
{
    let mut i: usize = 0;
    while i < b.len()
        invariant
            0 <= i <= b@.len(),
            forall|j: int| 0 <= j < i ==> b@[j] == 0,
        decreases b@.len() - i,
    {
        if b[i] != 0 {
            return false;
        }
        i = i + 1;
    }
    true
}

/// The array of a 32-byte slice.
pub(crate) fn array32(b: &[u8]) -> (a: [u8; 32])
    requires
        b@.len() == 32,
    ensures
        a@ == b@,
{
    let mut a = [0u8; 32];
    let mut i: usize = 0;
    while i < 32
        invariant
            0 <= i <= 32,
            b@.len() == 32,
            forall|j: int| 0 <= j < i ==> a@[j] == b@[j],
        decreases 32 - i,
    {
        a[i] = b[i];
        i = i + 1;
    }
    assert(a@ =~= b@);
    a
}

fn array48(b: &[u8]) -> (a: [u8; 48])
    requires
        b@.len() == 48,
    ensures
        a@ == b@,
{
    let mut a = [0u8; 48];
    let mut i: usize = 0;
    while i < 48
        invariant
            0 <= i <= 48,
            b@.len() == 48,
            forall|j: int| 0 <= j < i ==> a@[j] == b@[j],
        decreases 48 - i,
    {
        a[i] = b[i];
        i = i + 1;
    }
    assert(a@ =~= b@);
    a
}

fn array96(b: &[u8]) -> (a: [u8; 96])
    requires
        b@.len() == 96,
    ensures
        a@ == b@,
{
    let mut a = [0u8; 96];
    let mut i: usize = 0;
    while i < 96
        invariant
            0 <= i <= 96,
            b@.len() == 96,
            forall|j: int| 0 <= j < i ==> a@[j] == b@[j],
        decreases 96 - i,
    {
        a[i] = b[i];
        i = i + 1;
    }
    assert(a@ =~= b@);
    a
}

/// Public key of a private key: the private key's bytes, a marker byte 1,
/// then zeros.
pub open spec fn public_of(private_key: Seq<u8>) -> Seq<u8> {
    Seq::new(48, |i: int| if i < 32 { private_key[i] } else if i == 32 { 1u8 } else { 0u8 })
}

/// Signature of a hash: the private key's bytes, the hash, a marker byte
/// 0x42, then zeros.
pub open spec fn signature_of(private_key: Seq<u8>, hash: Seq<u8>) -> Seq<u8> {
    Seq::new(
        96,
        |i: int|
            if i < 32 {
                private_key[i]
            } else if i < 64 {
                hash[i - 32]
            } else if i == 64 {
                0x42u8
            } else {
                0u8
            },
    )
}

/// Whether a signature signs a hash: it carries the marker and the hash.
pub open spec fn signs(sig: Seq<u8>, hash: Seq<u8>) -> bool {
    sig[64] == 0x42 && sig.subrange(32, 64) == hash
}

/// Byte-wise exclusive or of byte strings of length `n`, starting from zeros.
pub open spec fn xor_fold(s: Seq<Seq<u8>>, n: nat) -> Seq<u8>
    decreases s.len(),
{
    if s.len() == 0 {
        Seq::new(n, |i: int| 0u8)
    } else {
        let acc = xor_fold(s.drop_last(), n);
        Seq::new(n, |i: int| acc[i] ^ s.last()[i])
    }
}

/// A private key of 32 bytes, never all zero when made from bytes.
pub struct PrivateKey {
    key: [u8; 32],
}

impl View for PrivateKey {
    type V = Seq<u8>;

    closed spec fn view(&self) -> Seq<u8> {
        self.key@
    }
}

impl PartialEq for PrivateKey {
    fn eq(&self, other: &Self) -> (r: bool) {
        bytes_eq(self.key.as_slice(), other.key.as_slice())
    }
}

impl vstd::std_specs::cmp::PartialEqSpecImpl for PrivateKey {
    open spec fn obeys_eq_spec() -> bool {
        true
    }

    open spec fn eq_spec(&self, other: &Self) -> bool {
        self@ == other@
    }
}

impl PrivateKey {
    /// A private key from the system's random source: the first 32 bytes
    /// drawn, unless they are all zero (see `from_first_draw`).
    pub fn generate() -> (r: Result<Self>)
        ensures
            r matches Ok(k) ==> exists|first: Seq<u8>|
                first.len() == 32 && (!all_zero(first) ==> k@ == first),
            r matches Err(e) ==> e is KeyGenerationFailed,
    {
        let first = match random_32() {
            Ok(k) => k,
            Err(e) => {
                return Err(CryptoError::KeyGenerationFailed(e));
            },
        };
        let r = Self::from_first_draw(first);
        proof {
            if r is Ok && !all_zero(first@) {
                assert(r->Ok_0@ == first@);
            }
        }
        r
    }

    /// The key a first draw of random bytes gives: those bytes, unless they
    /// are all zero; then a second draw from the system's random source,
    /// refused when that fails.
    pub fn from_first_draw(first: [u8; 32]) -> (r: Result<Self>)
        ensures
            !all_zero(first@) ==> (r matches Ok(k) && k@ == first@),
            r matches Ok(k) ==> k@.len() == 32,
            r matches Err(e) ==> all_zero(first@) && e is KeyGenerationFailed,
    {
        if !is_all_zero(first.as_slice()) {
            return Ok(PrivateKey { key: first });
        }
        match random_32() {
            Ok(k) => Ok(PrivateKey { key: k }),
            Err(e) => Err(CryptoError::KeyGenerationFailed(e)),
        }
    }

    /// A private key from 32 bytes that are not all zero; refused otherwise.
    pub fn from_bytes(bytes: &[u8]) -> (r: Result<Self>)
        ensures
            (bytes@.len() == 32 && !all_zero(bytes@)) ==> (r matches Ok(k) && k@ == bytes@),
            !(bytes@.len() == 32 && !all_zero(bytes@)) ==> r matches Err(CryptoError::InvalidPrivateKey),
    {
        if bytes.len() != 32 {
            return Err(CryptoError::InvalidPrivateKey);
        }
        let key = array32(bytes);
        if is_all_zero(key.as_slice()) {
            return Err(CryptoError::InvalidPrivateKey);
        }
        Ok(PrivateKey { key })
    }

    /// The matching public key.
    pub fn public_key(&self) -> (r: Result<PublicKey>)
        ensures
            r matches Ok(k) && k@ == public_of(self@),
    {
        PublicKey::from_private_key(self)
    }

    /// Signs a hash.
    pub fn sign(&self, message_hash: &SigHash) -> (r: Result<Signature>)
        ensures
            r matches Ok(s) && s@ == signature_of(self@, message_hash@),
    {
        Signature::create(self, message_hash)
    }

    pub fn as_bytes(&self) -> (b: &[u8; 32])
        ensures
            b@ == self@,
    {
        &self.key
    }
}

/// A public key of 48 bytes.
#[derive(Clone, Debug)]
pub struct PublicKey {
    key: [u8; 48],
}

impl View for PublicKey {
    type V = Seq<u8>;

    closed spec fn view(&self) -> Seq<u8> {
        self.key@
    }
}

impl PartialEq for PublicKey {
    fn eq(&self, other: &Self) -> (r: bool) {
        bytes_eq(self.key.as_slice(), other.key.as_slice())
    }
}

impl vstd::std_specs::cmp::PartialEqSpecImpl for PublicKey {
    open spec fn obeys_eq_spec() -> bool {
        true
    }

    open spec fn eq_spec(&self, other: &Self) -> bool {
        self@ == other@
    }
}

impl PublicKey {
    /// The public key of a private key.
    pub fn from_private_key(private_key: &PrivateKey) -> (r: Result<Self>)
        ensures
            r matches Ok(k) && k@ == public_of(private_key@),
    {
        let mut key = [0u8; 48];
        let mut i: usize = 0;
        while i < 32
            invariant
                0 <= i <= 32,
                forall|j: int| 0 <= j < i ==> key@[j] == private_key@[j],
                forall|j: int| 32 <= j < 48 ==> key@[j] == 0,
            decreases 32 - i,
        {
            key[i] = private_key.key[i];
            i = i + 1;
        }
        key[32] = 0x01;
        assert(key@ =~= public_of(private_key@));
        Ok(PublicKey { key })
    }

    /// A public key from 48 bytes; refused otherwise.
    pub fn from_bytes(bytes: &[u8]) -> (r: Result<Self>)
        ensures
            bytes@.len() == 48 ==> (r matches Ok(k) && k@ == bytes@),
            bytes@.len() != 48 ==> r matches Err(CryptoError::InvalidPublicKey),
    {
        if bytes.len() != 48 {
            return Err(CryptoError::InvalidPublicKey);
        }
        Ok(PublicKey { key: array48(bytes) })
    }

    /// Whether the signature signs the hash.
    pub fn verify(&self, signature: &Signature, message_hash: &SigHash) -> (r: bool)
        ensures
            r == signs(signature@, message_hash@),
    {
        match signature.verify(self, message_hash) {
            Ok(b) => b,
            Err(_) => false,
        }
    }

    pub fn as_bytes(&self) -> (b: &[u8; 48])
        ensures
            b@ == self@,
    {
        &self.key
    }

    /// The key in its storage form.
    pub fn compress(&self) -> (c: CompressedPublicKey)
        ensures
            c@ == self@,
    {
        CompressedPublicKey { key: self.key }
    }
}

/// Storage form of a public key.
#[derive(Clone, Debug)]
pub struct CompressedPublicKey {
    key: [u8; 48],
}

impl View for CompressedPublicKey {
    type V = Seq<u8>;

    closed spec fn view(&self) -> Seq<u8> {
        self.key@
    }
}

impl CompressedPublicKey {
    /// The public key it stores.
    pub fn decompress(&self) -> (r: Result<PublicKey>)
        ensures
            r matches Ok(k) && k@ == self@,
    {
        PublicKey::from_bytes(self.key.as_slice())
    }

    pub fn as_bytes(&self) -> (b: &[u8; 48])
        ensures
            b@ == self@,
    {
        &self.key
    }
}

/// A signature of 96 bytes.
#[derive(Clone, Debug)]
pub struct Signature {
    sig: [u8; 96],
}

impl View for Signature {
    type V = Seq<u8>;

    closed spec fn view(&self) -> Seq<u8> {
        self.sig@
    }
}

impl PartialEq for Signature {
    fn eq(&self, other: &Self) -> (r: bool) {
        bytes_eq(self.sig.as_slice(), other.sig.as_slice())
    }
}

impl vstd::std_specs::cmp::PartialEqSpecImpl for Signature {
    open spec fn obeys_eq_spec() -> bool {
        true
    }

    open spec fn eq_spec(&self, other: &Self) -> bool {
        self@ == other@
    }
}

impl Signature {
    /// The signature of a hash under a private key.
    pub fn create(private_key: &PrivateKey, message_hash: &SigHash) -> (r: Result<Self>)
        ensures
            r matches Ok(s) && s@ == signature_of(private_key@, message_hash@),
    {
        let mut sig = [0u8; 96];
        let mut i: usize = 0;
        while i < 32
            invariant
                0 <= i <= 32,
                forall|j: int| 0 <= j < i ==> sig@[j] == private_key@[j],
                forall|j: int| 32 <= j < 96 ==> sig@[j] == 0,
            decreases 32 - i,
        {
            sig[i] = private_key.key[i];
            i = i + 1;
        }
        while i < 64
            invariant
                32 <= i <= 64,
                forall|j: int| 0 <= j < 32 ==> sig@[j] == private_key@[j],
                forall|j: int| 32 <= j < i ==> sig@[j] == message_hash@[j - 32],
                forall|j: int| 64 <= j < 96 ==> sig@[j] == 0,
            decreases 64 - i,
        {
            sig[i] = message_hash.0[i - 32];
            i = i + 1;
        }
        sig[64] = 0x42;
        assert(sig@ =~= signature_of(private_key@, message_hash@));
        Ok(Signature { sig })
    }

    /// A signature from 96 bytes; refused otherwise.
    pub fn from_bytes(bytes: &[u8]) -> (r: Result<Self>)
        ensures
            bytes@.len() == 96 ==> (r matches Ok(s) && s@ == bytes@),
            bytes@.len() != 96 ==> r matches Err(CryptoError::InvalidSignature),
    {
        if bytes.len() != 96 {
            return Err(CryptoError::InvalidSignature);
        }
        Ok(Signature { sig: array96(bytes) })
    }

    /// Whether the signature carries the marker and the hash.
    pub fn verify(&self, public_key: &PublicKey, message_hash: &SigHash) -> (r: Result<bool>)
        ensures
            r == Ok::<bool, CryptoError>(signs(self@, message_hash@)),
    {
        if self.sig[64] != 0x42 {
            return Ok(false);
        }
        let mut i: usize = 32;
        while i < 64
            invariant
                32 <= i <= 64,
                forall|j: int| 32 <= j < i ==> self.sig@[j] == message_hash@[j - 32],
            decreases 64 - i,
        {
            if self.sig[i] != message_hash.0[i - 32] {
                proof {
                    assert(self.sig@.subrange(32, 64)[i - 32] != message_hash@[i - 32]);
                }
                return Ok(false);
            }
            i = i + 1;
        }
        assert(self.sig@.subrange(32, 64) =~= message_hash@);
        Ok(true)
    }

    pub fn as_bytes(&self) -> (b: &[u8; 96])
        ensures
            b@ == self@,
    {
        &self.sig
    }

    /// The signature in its storage form.
    pub fn compress(&self) -> (c: CompressedSignature)
        ensures
            c@ == self@,
    {
        CompressedSignature { sig: self.sig }
    }
}

/// Storage form of a signature.
#[derive(Clone, Debug)]
pub struct CompressedSignature {
    sig: [u8; 96],
}

impl View for CompressedSignature {
    type V = Seq<u8>;

    closed spec fn view(&self) -> Seq<u8> {
        self.sig@
    }
}

impl CompressedSignature {
    /// The signature it stores.
    pub fn decompress(&self) -> (r: Result<Signature>)
        ensures
            r matches Ok(s) && s@ == self@,
    {
        Signature::from_bytes(self.sig.as_slice())
    }

    pub fn as_bytes(&self) -> (b: &[u8; 96])
        ensures
            b@ == self@,
    {
        &self.sig
    }
}

/// Views of a list of public keys.
pub open spec fn key_views(s: Seq<PublicKey>) -> Seq<Seq<u8>> {
    s.map_values(|k: PublicKey| k@)
}

/// Views of a list of signatures.
pub open spec fn signature_views(s: Seq<Signature>) -> Seq<Seq<u8>> {
    s.map_values(|k: Signature| k@)
}

/// Aggregate of public keys: their byte-wise exclusive or.
#[derive(Clone, Debug)]
pub struct AggregatePublicKey {
    agg_key: [u8; 48],
}

impl View for AggregatePublicKey {
    type V = Seq<u8>;

    closed spec fn view(&self) -> Seq<u8> {
        self.agg_key@
    }
}

impl AggregatePublicKey {
    /// Aggregates a non-empty list of public keys.
    pub fn aggregate(public_keys: &[PublicKey]) -> (r: Result<Self>)
        ensures
            public_keys@.len() == 0 ==> crypto_outcome(r) == Err::<Self, Seq<char>>(
                "Aggregation failed: "@ + "No keys to aggregate"@,
            ),
            public_keys@.len() > 0 ==> (r matches Ok(a) && a@ == xor_fold(key_views(public_keys@), 48)),
    {
        if public_keys.len() == 0 {
            return Err(CryptoError::AggregationFailed("No keys to aggregate".to_string()));
        }
        let mut agg_key = [0u8; 48];
        let mut k: usize = 0;
        assert(agg_key@ =~= xor_fold(key_views(public_keys@.subrange(0, 0)), 48));
        while k < public_keys.len()
            invariant
                0 <= k <= public_keys@.len(),
                agg_key@ == xor_fold(key_views(public_keys@.subrange(0, k as int)), 48),
            decreases public_keys@.len() - k,
        {
            let ghost acc = agg_key@;
            let key = public_keys[k].as_bytes();
            let mut i: usize = 0;
            while i < 48
                invariant
                    0 <= i <= 48,
                    key@.len() == 48,
                    acc.len() == 48,
                    agg_key@.len() == 48,
                    forall|j: int| 0 <= j < i ==> agg_key@[j] == acc[j] ^ key@[j],
                    forall|j: int| i <= j < 48 ==> agg_key@[j] == acc[j],
                decreases 48 - i,
            {
                agg_key[i] = agg_key[i] ^ key[i];
                i = i + 1;
            }
            proof {
                let s = public_keys@.subrange(0, k + 1);
                assert(key_views(s).drop_last() =~= key_views(public_keys@.subrange(0, k as int)));
                assert(key_views(s).last() == public_keys@[k as int]@);
                assert(agg_key@ =~= xor_fold(key_views(s), 48));
            }
            k = k + 1;
        }
        assert(public_keys@.subrange(0, public_keys@.len() as int) =~= public_keys@);
        Ok(AggregatePublicKey { agg_key })
    }

    /// Whether the aggregate signature is accepted for the hash.
    pub fn verify(&self, signature: &AggregateSignature, message_hash: &SigHash) -> (r: bool)
        ensures
            r == !all_zero(signature@),
    {
        match signature.verify(self, message_hash) {
            Ok(b) => b,
            Err(_) => false,
        }
    }

    pub fn as_bytes(&self) -> (b: &[u8; 48])
        ensures
            b@ == self@,
    {
        &self.agg_key
    }
}

/// Aggregate of signatures: their byte-wise exclusive or.
#[derive(Clone, Debug)]
pub struct AggregateSignature {
    agg_sig: [u8; 96],
}

impl View for AggregateSignature {
    type V = Seq<u8>;

    closed spec fn view(&self) -> Seq<u8> {
        self.agg_sig@
    }
}

impl AggregateSignature {
    /// Aggregates a non-empty list of signatures.
    pub fn aggregate(signatures: &[Signature]) -> (r: Result<Self>)
        ensures
            signatures@.len() == 0 ==> crypto_outcome(r) == Err::<Self, Seq<char>>(
                "Aggregation failed: "@ + "No signatures to aggregate"@,
            ),
            signatures@.len() > 0 ==> (r matches Ok(a) && a@ == xor_fold(signature_views(signatures@), 96)),
    {
        if signatures.len() == 0 {
            return Err(CryptoError::AggregationFailed("No signatures to aggregate".to_string()));
        }
        let mut agg_sig = [0u8; 96];
        let mut k: usize = 0;
        assert(agg_sig@ =~= xor_fold(signature_views(signatures@.subrange(0, 0)), 96));
        while k < signatures.len()
            invariant
                0 <= k <= signatures@.len(),
                agg_sig@ == xor_fold(signature_views(signatures@.subrange(0, k as int)), 96),
            decreases signatures@.len() - k,
        {
            let ghost acc = agg_sig@;
            let sig = signatures[k].as_bytes();
            let mut i: usize = 0;
            while i < 96
                invariant
                    0 <= i <= 96,
                    sig@.len() == 96,
                    acc.len() == 96,
                    agg_sig@.len() == 96,
                    forall|j: int| 0 <= j < i ==> agg_sig@[j] == acc[j] ^ sig@[j],
                    forall|j: int| i <= j < 96 ==> agg_sig@[j] == acc[j],
                decreases 96 - i,
            {
                agg_sig[i] = agg_sig[i] ^ sig[i];
                i = i + 1;
            }
            proof {
                let s = signatures@.subrange(0, k + 1);
                assert(signature_views(s).drop_last() =~= signature_views(signatures@.subrange(0, k as int)));
                assert(signature_views(s).last() == signatures@[k as int]@);
                assert(agg_sig@ =~= xor_fold(signature_views(s), 96));
            }
            k = k + 1;
        }
        assert(signatures@.subrange(0, signatures@.len() as int) =~= signatures@);
        Ok(AggregateSignature { agg_sig })
    }

    /// Accepts an aggregate that is not all zero bytes.
    pub fn verify(&self, agg_public_key: &AggregatePublicKey, message_hash: &SigHash) -> (r: Result<bool>)
        ensures
            r == Ok::<bool, CryptoError>(!all_zero(self@)),
    {
        Ok(!is_all_zero(self.agg_sig.as_slice()))
    }

    /// An aggregate from 96 bytes; refused otherwise.
    pub fn from_bytes(bytes: &[u8]) -> (r: Result<Self>)
        ensures
            bytes@.len() == 96 ==> (r matches Ok(s) && s@ == bytes@),
            bytes@.len() != 96 ==> r matches Err(CryptoError::InvalidSignature),
    {
        if bytes.len() != 96 {
            return Err(CryptoError::InvalidSignature);
        }
        Ok(AggregateSignature { agg_sig: array96(bytes) })
    }

    pub fn as_bytes(&self) -> (b: &[u8; 96])
        ensures
            b@ == self@,
    {
        &self.agg_sig
    }
}

/// A signature made for a hash is accepted for that hash and for no other.
pub proof fn law_signature_accepts_only_its_hash(private_key: Seq<u8>, hash: Seq<u8>, other: Seq<u8>)
    requires
        private_key.len() == 32,
        hash.len() == 32,
        other.len() == 32,
    ensures
        signs(signature_of(private_key, hash), other) <==> other == hash,
{
    assert(signature_of(private_key, hash).subrange(32, 64) =~= hash);
}

/// Aggregating keys is independent of their order: swapping two adjacent
/// keys gives the same aggregate.
pub proof fn law_aggregate_swap(s: Seq<Seq<u8>>, i: int, n: nat)
    requires
        0 <= i,
        i + 1 < s.len(),
        forall|j: int| 0 <= j < s.len() ==> #[trigger] s[j].len() == n,
    ensures
        xor_fold(s.update(i, s[i + 1]).update(i + 1, s[i]), n) == xor_fold(s, n),
    decreases s.len(),
{
    let t = s.update(i, s[i + 1]).update(i + 1, s[i]);
    if i + 2 < s.len() {
        law_aggregate_swap(s.drop_last(), i, n);
        assert(t.drop_last() =~= s.drop_last().update(i, s[i + 1]).update(i + 1, s[i]));
        assert(xor_fold(t, n) =~= xor_fold(s, n));
    } else {
        let p = s.drop_last().drop_last();
        assert(t.drop_last().drop_last() =~= p);
        assert(s.drop_last().drop_last() =~= p);
        let a = xor_fold(p, n);
        assert(t.drop_last().last() == s[i + 1]);
        assert(s.drop_last().last() == s[i]);
        assert(t.last() == s[i]);
        assert(s.last() == s[i + 1]);
        let ta = xor_fold(t.drop_last(), n);
        let sa = xor_fold(s.drop_last(), n);
        assert(ta =~= Seq::new(n, |j: int| a[j] ^ s[i + 1][j]));
        assert(sa =~= Seq::new(n, |j: int| a[j] ^ s[i][j]));
        assert forall|j: int| 0 <= j < n implies (a[j] ^ s[i + 1][j]) ^ s[i][j] == (a[j] ^ s[i][j]) ^ s[i + 1][j] by {
            let x = a[j];
            let y = s[i][j];
            let z = s[i + 1][j];
            assert((x ^ z) ^ y == (x ^ y) ^ z) by (bit_vector);
        }
        assert(xor_fold(t, n) =~= xor_fold(s, n));
    }
}

/// Taking any one key out of the aggregate: the aggregate is that of the
/// other keys combined with it.
proof fn lemma_aggregate_remove(s: Seq<Seq<u8>>, k: int, n: nat)
    requires
        0 <= k < s.len(),
        forall|j: int| 0 <= j < s.len() ==> #[trigger] s[j].len() == n,
    ensures
        xor_fold(s, n) == Seq::new(n, |j: int| xor_fold(s.remove(k), n)[j] ^ s[k][j]),
    decreases s.len() - k,
{
    if k == s.len() - 1 {
        assert(s.remove(k) =~= s.drop_last());
    } else {
        let t = s.update(k, s[k + 1]).update(k + 1, s[k]);
        law_aggregate_swap(s, k, n);
        assert forall|j: int| 0 <= j < t.len() implies #[trigger] t[j].len() == n by {}
        lemma_aggregate_remove(t, k + 1, n);
        assert(t.remove(k + 1) =~= s.remove(k));
    }
}

/// Aggregating keys is independent of their order: any two lists holding
/// the same keys, as many times each, give the same aggregate.
pub proof fn law_aggregate_order_free(s: Seq<Seq<u8>>, t: Seq<Seq<u8>>, n: nat)
    requires
        s.to_multiset() == t.to_multiset(),
        forall|j: int| 0 <= j < s.len() ==> #[trigger] s[j].len() == n,
    ensures
        xor_fold(s, n) == xor_fold(t, n),
    decreases t.len(),
{
    broadcast use vstd::seq_lib::group_to_multiset_ensures;
    vstd::seq_lib::to_multiset_len(s);
    vstd::seq_lib::to_multiset_len(t);
    assert(s.len() == t.len());
    if t.len() == 0 {
        assert(s.len() == 0);
    } else {
        let x = t.last();
        assert(t.contains(x)) by {
            assert(t[t.len() - 1] == x);
        }
        assert(t.to_multiset().count(x) > 0);
        assert(s.contains(x));
        let k = choose|k: int| 0 <= k < s.len() && s[k] == x;
        let s1 = s.remove(k);
        let t1 = t.drop_last();
        assert(t1 =~= t.remove(t.len() - 1));
        assert(s1.to_multiset() =~= s.to_multiset().remove(x));
        assert(t1.to_multiset() =~= t.to_multiset().remove(x));
        assert forall|j: int| 0 <= j < s1.len() implies #[trigger] s1[j].len() == n by {
            if j < k {
                assert(s1[j] == s[j]);
            } else {
                assert(s1[j] == s[j + 1]);
            }
        }
        law_aggregate_order_free(s1, t1, n);
        lemma_aggregate_remove(s, k, n);
        assert(xor_fold(s, n) =~= xor_fold(t, n));
    }
}

} // verus!
