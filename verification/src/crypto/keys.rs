//! Key pairs, validators' and network operators' keys, and the registry that
//! tracks them across epochs and rotations.
use vstd::prelude::*;
use crate::clock::unix_now;
use crate::collections::VecMap;
use crate::crypto::bls::{bls_check, bls_key_gen, bls_pk_of, bls_sign_of, dst_bytes};
use crate::crypto::{CompressedPublicKey, CryptoError, PrivateKey, PublicKey, Result, Signature};
use crate::primitives::primitives::{hash_data, sha256, Blake2bHash};

verus! {

/// A private key with its public key and the key's identifier, the digest of
/// the public key's bytes.
pub struct KeyPair {
    pub private_key: PrivateKey,
    pub public_key: PublicKey,
    pub key_id: Blake2bHash,
}

impl KeyPair {
    /// Identifier of a public key.
    fn compute_key_id(public_key: &PublicKey) -> (id: Blake2bHash)
        ensures
            id@ == sha256(public_key.bytes()),
    {
        hash_data(public_key.as_bytes().as_slice())
    }

    /// A fresh key pair.
    pub fn generate() -> (r: Result<Self>)
        ensures
            r matches Ok(kp) ==> kp.key_id@ == sha256(kp.public_key.bytes()) && kp.public_key.bytes() == bls_pk_of(
                kp.private_key.inner.scalar(),
            ),
            r matches Ok(kp) ==> exists|ikm: Seq<u8>|
                ikm.len() == 32 && #[trigger] bls_key_gen(ikm) == kp.private_key.inner.scalar(),
            r matches Err(e) ==> e is KeyGenerationFailed,
    {
        let private_key = PrivateKey::generate()?;
        Self::from_private_key(private_key)
    }

    /// The key pair of an existing private key.
    pub fn from_private_key(private_key: PrivateKey) -> (r: Result<Self>)
        ensures
            r matches Ok(kp) && kp.key_id@ == sha256(kp.public_key.bytes()) && kp.private_key == private_key
                && kp.public_key.bytes() == bls_pk_of(private_key.inner.scalar()),
    {
        let public_key = private_key.public_key();
        let key_id = Self::compute_key_id(&public_key);
        Ok(KeyPair { private_key, public_key, key_id })
    }

    pub fn public(&self) -> (k: &PublicKey)
        ensures
            k == &self.public_key,
    {
        &self.public_key
    }

    pub fn private(&self) -> (k: &PrivateKey)
        ensures
            k == &self.private_key,
    {
        &self.private_key
    }

    /// Signs the digest of `message`.
    pub fn sign(&self, message: &[u8]) -> (r: Result<Signature>)
        ensures
            r matches Ok(s) && s.inner.bytes() == bls_sign_of(
                self.private_key.inner.scalar(),
                sha256(message@),
                dst_bytes(),
            ),
    {
        let message_hash = hash_data(message);
        self.private_key.sign(message_hash.as_bytes().as_slice())
    }

    /// Whether `signature` signs the digest of `message` under the public key.
    pub fn verify(&self, signature: &Signature, message: &[u8]) -> (r: bool)
        ensures
            r == (bls_check(signature.bytes(), self.public_key.bytes(), sha256(message@)) == Ok::<bool, Seq<char>>(true)),
    {
        let message_hash = hash_data(message);
        self.public_key.verify(signature, message_hash.as_bytes().as_slice())
    }
}

/// A validator's keys and the epochs in which they are active.
#[derive(Clone, Debug)]
pub struct ValidatorKey {
    pub validator_address: Blake2bHash,
    pub signing_key: CompressedPublicKey,
    /// 32-byte Ed25519 key for voting.
    pub voting_key: Vec<u8>,
    pub reward_address: Blake2bHash,
    pub active_from_epoch: u32,
    pub inactive_from_epoch: Option<u32>,
}

/// Whether a key active from `from` and, if so, inactive from `until` is
/// active in `epoch`.
pub open spec fn active_in(from: u32, until: Option<u32>, epoch: u32) -> bool {
    &&& from <= epoch
    &&& match until {
        Some(u) => epoch < u,
        None => true,
    }
}

impl ValidatorKey {
    /// A validator's key, active from `active_from_epoch` on; refused unless
    /// the voting key has 32 bytes.
    pub fn new(
        validator_address: Blake2bHash,
        signing_key: CompressedPublicKey,
        voting_key: Vec<u8>,
        reward_address: Blake2bHash,
        active_from_epoch: u32,
    ) -> (r: Result<Self>)
        ensures
            voting_key@.len() != 32 ==> r matches Err(CryptoError::InvalidPublicKey),
            voting_key@.len() == 32 ==> r == Ok::<Self, CryptoError>(
                ValidatorKey {
                    validator_address,
                    signing_key,
                    voting_key,
                    reward_address,
                    active_from_epoch,
                    inactive_from_epoch: None,
                },
            ),
    {
        if voting_key.len() != 32 {
            return Err(CryptoError::InvalidPublicKey);
        }
        Ok(ValidatorKey {
            validator_address,
            signing_key,
            voting_key,
            reward_address,
            active_from_epoch,
            inactive_from_epoch: None,
        })
    }

    /// Whether the key is active in `epoch`.
    pub fn is_active_at_epoch(&self, epoch: u32) -> (r: bool)
        ensures
            r == active_in(self.active_from_epoch, self.inactive_from_epoch, epoch),
    {
        if epoch < self.active_from_epoch {
            return false;
        }
        if let Some(inactive_epoch) = self.inactive_from_epoch {
            if epoch >= inactive_epoch {
                return false;
            }
        }
        true
    }

    /// Makes the key inactive from `epoch` on.
    pub fn deactivate_at_epoch(&mut self, epoch: u32)
        ensures
            *final(self) == (ValidatorKey { inactive_from_epoch: Some(epoch), ..*old(self) }),
    {
        self.inactive_from_epoch = Some(epoch);
    }
}

/// A network operator's keys.
#[derive(Clone, Debug)]
pub struct NetworkOperatorKey {
    pub network_id: String,
    pub primary_key: CompressedPublicKey,
    pub backup_key: Option<CompressedPublicKey>,
    pub settlement_key: CompressedPublicKey,
    pub country_code: String,
    pub created_at: u64,
    pub expires_at: Option<u64>,
}

/// Whether a key expiring at `expires_at`, if ever, is valid at `now`.
pub open spec fn valid_at(expires_at: Option<u64>, now: u64) -> bool {
    match expires_at {
        Some(e) => now < e,
        None => true,
    }
}

impl NetworkOperatorKey {
    /// An operator's keys created at `created_at`, with no backup and no
    /// expiration.
    pub fn new_at(
        network_id: String,
        primary_key: CompressedPublicKey,
        settlement_key: CompressedPublicKey,
        country_code: String,
        created_at: u64,
    ) -> (k: Self)
        ensures
            k == (NetworkOperatorKey {
                network_id,
                primary_key,
                backup_key: None,
                settlement_key,
                country_code,
                created_at,
                expires_at: None,
            }),
    {
        NetworkOperatorKey { network_id, primary_key, backup_key: None, settlement_key, country_code, created_at, expires_at: None }
    }

    /// An operator's keys created now.
    pub fn new(network_id: String, primary_key: CompressedPublicKey, settlement_key: CompressedPublicKey, country_code: String) -> (k: Self)
        ensures
            k.network_id == network_id,
            k.primary_key == primary_key,
            k.backup_key is None,
            k.settlement_key == settlement_key,
            k.country_code == country_code,
            k.expires_at is None,
    {
        Self::new_at(network_id, primary_key, settlement_key, country_code, unix_now())
    }

    /// Whether the key is valid at `now`.
    pub fn is_valid_at(&self, now: u64) -> (r: bool)
        ensures
            r == valid_at(self.expires_at, now),
    {
        match self.expires_at {
            Some(expires_at) => now < expires_at,
            None => true,
        }
    }

    /// Whether the key is valid now; always when it never expires.
    pub fn is_valid(&self) -> (r: bool)
        ensures
            self.expires_at is None ==> r,
            exists|now: u64| r == valid_at(self.expires_at, now),
    {
        let now = unix_now();
        self.is_valid_at(now)
    }

    pub fn set_backup_key(&mut self, backup_key: CompressedPublicKey)
        ensures
            *final(self) == (NetworkOperatorKey { backup_key: Some(backup_key), ..*old(self) }),
    {
        self.backup_key = Some(backup_key);
    }

    pub fn set_expiration(&mut self, expires_at: u64)
        ensures
            *final(self) == (NetworkOperatorKey { expires_at: Some(expires_at), ..*old(self) }),
    {
        self.expires_at = Some(expires_at);
    }
}

/// The keys of a list that are active in `epoch`, in order.
pub open spec fn active_keys(s: Seq<ValidatorKey>, epoch: u32) -> Seq<ValidatorKey>
    decreases s.len(),
{
    if s.len() == 0 {
        Seq::empty()
    } else if active_in(s.last().active_from_epoch, s.last().inactive_from_epoch, epoch) {
        active_keys(s.drop_last(), epoch).push(s.last())
    } else {
        active_keys(s.drop_last(), epoch)
    }
}

/// The keys of a list that are valid at `now`, in order.
pub open spec fn valid_keys(s: Seq<NetworkOperatorKey>, now: u64) -> Seq<NetworkOperatorKey>
    decreases s.len(),
{
    if s.len() == 0 {
        Seq::empty()
    } else if valid_at(s.last().expires_at, now) {
        valid_keys(s.drop_last(), now).push(s.last())
    } else {
        valid_keys(s.drop_last(), now)
    }
}

/// Whether `after` lists the current keys `cur` (those of the registry `m`)
/// once `k` is registered under its address: in place of the key it
/// replaces, else at the end.
pub open spec fn registered(cur: Seq<ValidatorKey>, m: Map<Seq<u8>, ValidatorKey>, k: ValidatorKey, after: Seq<ValidatorKey>) -> bool {
    if m.contains_key(k.validator_address@) {
        exists|i: int| 0 <= i < cur.len() && cur[i] == m[k.validator_address@] && after == cur.update(i, k)
    } else {
        after == cur.push(k)
    }
}

/// Registry of validators' and operators' keys. A rotated key is kept,
/// retired, until the epoch or time it was given ends its use.
#[derive(Debug)]
pub struct KeyManager {
    validator_keys: VecMap<Blake2bHash, ValidatorKey>,
    retired_validator_keys: Vec<ValidatorKey>,
    network_operator_keys: VecMap<String, NetworkOperatorKey>,
    retired_operator_keys: Vec<NetworkOperatorKey>,
    current_epoch: u32,
}

impl KeyManager {
    /// Current validator keys, by validator address.
    pub closed spec fn validators(&self) -> Map<Seq<u8>, ValidatorKey> {
        self.validator_keys@
    }

    /// Current validator keys, in the order their addresses were first
    /// registered.
    pub closed spec fn current_validator_keys(&self) -> Seq<ValidatorKey> {
        self.validator_keys.entry_seq().map_values(|e: (Blake2bHash, ValidatorKey)| e.1)
    }

    /// Current and retired validator keys: current ones in the order they
    /// were added, then retired ones in the order they were retired.
    pub open spec fn all_validator_keys(&self) -> Seq<ValidatorKey> {
        self.current_validator_keys() + self.retired_validators()
    }

    /// Current operator keys, by network.
    pub closed spec fn operators(&self) -> Map<Seq<char>, NetworkOperatorKey> {
        self.network_operator_keys@
    }

    /// Current and retired operator keys, in the same order.
    pub closed spec fn all_operator_keys(&self) -> Seq<NetworkOperatorKey> {
        self.network_operator_keys.entry_seq().map_values(|e: (String, NetworkOperatorKey)| e.1)
            + self.retired_operator_keys@
    }

    pub closed spec fn epoch(&self) -> u32 {
        self.current_epoch
    }

    pub fn new() -> (m: Self)
        ensures
            m.validators() == Map::<Seq<u8>, ValidatorKey>::empty(),
            m.operators() == Map::<Seq<char>, NetworkOperatorKey>::empty(),
            m.all_validator_keys().len() == 0,
            m.all_operator_keys().len() == 0,
            m.epoch() == 0,
    {
        KeyManager {
            validator_keys: VecMap::new(),
            retired_validator_keys: Vec::new(),
            network_operator_keys: VecMap::new(),
            retired_operator_keys: Vec::new(),
            current_epoch: 0,
        }
    }

    /// Registers a validator's key under its address, replacing an earlier
    /// one.
    pub fn add_validator_key(&mut self, validator_key: ValidatorKey)
        ensures
            final(self).validators() == old(self).validators().insert(validator_key.validator_address@, validator_key),
            registered(
                old(self).current_validator_keys(),
                old(self).validators(),
                validator_key,
                final(self).current_validator_keys(),
            ),
            final(self).operators() == old(self).operators(),
            final(self).epoch() == old(self).epoch(),
            final(self).retired_validators() == old(self).retired_validators(),
            final(self).retired_operators() == old(self).retired_operators(),
    {
        let address = validator_key.validator_address;
        let ghost k = validator_key;
        self.validator_keys.insert(address, validator_key);
        proof {
            let olds = old(self).validator_keys.entry_seq();
            if old(self).validators().contains_key(k.validator_address@) {
                let i = choose|i: int|
                    0 <= i < olds.len() && olds[i].0@ == k.validator_address@ && olds[i].1 == old(self).validators()[k.validator_address@]
                        && self.validator_keys.entry_seq() == olds.update(i, (address, k));
                assert(self.current_validator_keys() =~= old(self).current_validator_keys().update(i, k));
                assert(old(self).current_validator_keys()[i] == olds[i].1);
                assert(registered(
                    old(self).current_validator_keys(),
                    old(self).validators(),
                    k,
                    self.current_validator_keys(),
                ));
            } else {
                assert(self.current_validator_keys() =~= old(self).current_validator_keys().push(k));
            }
        }
    }

    /// The key registered under an address.
    pub fn get_validator_key(&self, address: &Blake2bHash) -> (r: Option<&ValidatorKey>)
        ensures
            match r {
                Some(k) => self.validators().contains_key(address@) && *k == self.validators()[address@],
                None => !self.validators().contains_key(address@),
            },
    {
        self.validator_keys.get(address)
    }

    /// The keys, current or retired, active in the current epoch.
    pub fn get_active_validator_keys(&self) -> (r: Vec<&ValidatorKey>)
        ensures
            r@.map_values(|k: &ValidatorKey| *k) == active_keys(self.all_validator_keys(), self.epoch()),
    {
        let entries = self.validator_keys.entries();
        let ghost all = self.all_validator_keys();
        let mut r: Vec<&ValidatorKey> = Vec::new();
        let n = entries.len();
        let mut i: usize = 0;
        while i < n
            invariant
                n == entries@.len(),
                entries@ == self.validator_keys.entry_seq(),
                all == self.all_validator_keys(),
                all.len() == n + self.retired_validator_keys@.len(),
                0 <= i <= n,
                r@.map_values(|k: &ValidatorKey| *k) == active_keys(all.subrange(0, i as int), self.current_epoch),
            decreases n - i,
        {
            let key: &ValidatorKey = &entries[i].1;
            proof {
                assert(*key == all[i as int]);
                assert(all.subrange(0, i + 1).drop_last() =~= all.subrange(0, i as int));
            }
            if key.is_active_at_epoch(self.current_epoch) {
                r.push(key);
                proof {
                    assert(r@.map_values(|k: &ValidatorKey| *k) =~= active_keys(all.subrange(0, i as int), self.current_epoch).push(*key));
                }
            }
            i = i + 1;
        }
        let mut j: usize = 0;
        while j < self.retired_validator_keys.len()
            invariant
                n == entries@.len(),
                all == self.all_validator_keys(),
                all.len() == n + self.retired_validator_keys@.len(),
                0 <= j <= self.retired_validator_keys@.len(),
                r@.map_values(|k: &ValidatorKey| *k) == active_keys(all.subrange(0, n + j), self.current_epoch),
            decreases self.retired_validator_keys@.len() - j,
        {
            let key: &ValidatorKey = &self.retired_validator_keys[j];
            proof {
                assert(*key == all[n + j]);
                assert(all.subrange(0, n + j + 1).drop_last() =~= all.subrange(0, n + j));
            }
            if key.is_active_at_epoch(self.current_epoch) {
                r.push(key);
                proof {
                    assert(r@.map_values(|k: &ValidatorKey| *k) =~= active_keys(all.subrange(0, n + j), self.current_epoch).push(*key));
                }
            }
            j = j + 1;
        }
        proof {
            assert(all.subrange(0, all.len() as int) =~= all);
        }
        r
    }

    /// Registers an operator's key under its network, replacing an earlier
    /// one.
    pub fn add_network_operator_key(&mut self, operator_key: NetworkOperatorKey)
        ensures
            final(self).operators() == old(self).operators().insert(operator_key.network_id@, operator_key),
            final(self).validators() == old(self).validators(),
            final(self).epoch() == old(self).epoch(),
            final(self).retired_validators() == old(self).retired_validators(),
            final(self).retired_operators() == old(self).retired_operators(),
    {
        let id = operator_key.network_id.clone();
        self.network_operator_keys.insert(id, operator_key);
    }

    /// The key registered for a network.
    pub fn get_network_operator_key(&self, network_id: &str) -> (r: Option<&NetworkOperatorKey>)
        ensures
            match r {
                Some(k) => self.operators().contains_key(network_id@) && *k == self.operators()[network_id@],
                None => !self.operators().contains_key(network_id@),
            },
    {
        self.network_operator_keys.get(&network_id.to_string())
    }

    /// The keys, current or retired, valid at `now`.
    pub fn get_valid_network_operator_keys_at(&self, now: u64) -> (r: Vec<&NetworkOperatorKey>)
        ensures
            r@.map_values(|k: &NetworkOperatorKey| *k) == valid_keys(self.all_operator_keys(), now),
    {
        let entries = self.network_operator_keys.entries();
        let ghost all = self.all_operator_keys();
        let mut r: Vec<&NetworkOperatorKey> = Vec::new();
        let n = entries.len();
        let mut i: usize = 0;
        while i < n
            invariant
                n == entries@.len(),
                entries@ == self.network_operator_keys.entry_seq(),
                all == self.all_operator_keys(),
                all.len() == n + self.retired_operator_keys@.len(),
                0 <= i <= n,
                r@.map_values(|k: &NetworkOperatorKey| *k) == valid_keys(all.subrange(0, i as int), now),
            decreases n - i,
        {
            let key: &NetworkOperatorKey = &entries[i].1;
            proof {
                assert(*key == all[i as int]);
                assert(all.subrange(0, i + 1).drop_last() =~= all.subrange(0, i as int));
            }
            if key.is_valid_at(now) {
                r.push(key);
                proof {
                    assert(r@.map_values(|k: &NetworkOperatorKey| *k) =~= valid_keys(all.subrange(0, i as int), now).push(*key));
                }
            }
            i = i + 1;
        }
        let mut j: usize = 0;
        while j < self.retired_operator_keys.len()
            invariant
                n == entries@.len(),
                all == self.all_operator_keys(),
                all.len() == n + self.retired_operator_keys@.len(),
                0 <= j <= self.retired_operator_keys@.len(),
                r@.map_values(|k: &NetworkOperatorKey| *k) == valid_keys(all.subrange(0, n + j), now),
            decreases self.retired_operator_keys@.len() - j,
        {
            let key: &NetworkOperatorKey = &self.retired_operator_keys[j];
            proof {
                assert(*key == all[n + j]);
                assert(all.subrange(0, n + j + 1).drop_last() =~= all.subrange(0, n + j));
            }
            if key.is_valid_at(now) {
                r.push(key);
                proof {
                    assert(r@.map_values(|k: &NetworkOperatorKey| *k) =~= valid_keys(all.subrange(0, n + j), now).push(*key));
                }
            }
            j = j + 1;
        }
        proof {
            assert(all.subrange(0, all.len() as int) =~= all);
        }
        r
    }

    /// The keys, current or retired, valid now.
    pub fn get_valid_network_operator_keys(&self) -> (r: Vec<&NetworkOperatorKey>)
        ensures
            exists|now: u64| r@.map_values(|k: &NetworkOperatorKey| *k) == valid_keys(self.all_operator_keys(), now),
    {
        let now = unix_now();
        self.get_valid_network_operator_keys_at(now)
    }

    pub fn update_epoch(&mut self, epoch: u32)
        ensures
            final(self).epoch() == epoch,
            final(self).validators() == old(self).validators(),
            final(self).operators() == old(self).operators(),
            final(self).current_validator_keys() == old(self).current_validator_keys(),
            final(self).retired_validators() == old(self).retired_validators(),
            final(self).all_operator_keys() == old(self).all_operator_keys(),
    {
        self.current_epoch = epoch;
    }

    /// Replaces a validator's key: the key registered under the address, if
    /// any, is retired, inactive from `deactivate_at_epoch` on, and the new
    /// key is registered under its own address.
    pub fn rotate_validator_key(&mut self, validator_address: &Blake2bHash, new_key: ValidatorKey, deactivate_at_epoch: u32) -> (r: Result<()>)
        ensures
            r is Ok,
            final(self).validators() == old(self).validators().remove(validator_address@).insert(
                new_key.validator_address@,
                new_key,
            ),
            old(self).validators().contains_key(validator_address@) ==> final(self).retired_validators()
                == old(self).retired_validators().push(
                (ValidatorKey {
                    inactive_from_epoch: Some(deactivate_at_epoch),
                    ..old(self).validators()[validator_address@]
                }),
            ),
            !old(self).validators().contains_key(validator_address@) ==> final(self).retired_validators()
                == old(self).retired_validators(),
            old(self).validators().contains_key(validator_address@) ==> exists|i: int|
                0 <= i < old(self).current_validator_keys().len() && old(self).current_validator_keys()[i] == old(
                    self,
                ).validators()[validator_address@] && registered(
                    old(self).current_validator_keys().remove(i),
                    old(self).validators().remove(validator_address@),
                    new_key,
                    final(self).current_validator_keys(),
                ),
            !old(self).validators().contains_key(validator_address@) ==> registered(
                old(self).current_validator_keys(),
                old(self).validators(),
                new_key,
                final(self).current_validator_keys(),
            ),
            final(self).operators() == old(self).operators(),
            final(self).epoch() == old(self).epoch(),
    {
        match self.validator_keys.remove(validator_address) {
            Some(old_key) => {
                proof {
                    let olds = old(self).validator_keys.entry_seq();
                    let i = choose|i: int|
                        0 <= i < olds.len() && olds[i].0@ == validator_address@ && olds[i].1 == old(self).validators()[validator_address@]
                            && self.validator_keys.entry_seq() == olds.remove(i);
                    assert(self.current_validator_keys() =~= old(self).current_validator_keys().remove(i));
                    assert(old(self).current_validator_keys()[i] == old(self).validators()[validator_address@]);
                }
                let mut retired = old_key;
                retired.deactivate_at_epoch(deactivate_at_epoch);
                self.retired_validator_keys.push(retired);
            },
            None => {},
        }
        self.add_validator_key(new_key);
        Ok(())
    }

    /// Retired validator keys, in the order they were retired.
    pub closed spec fn retired_validators(&self) -> Seq<ValidatorKey> {
        self.retired_validator_keys@
    }

    /// Retired operator keys, in the order they were retired.
    pub closed spec fn retired_operators(&self) -> Seq<NetworkOperatorKey> {
        self.retired_operator_keys@
    }

    /// Replaces a network's key: the key registered for the network, if
    /// any, is retired, expiring at `old_key_expiration`, and the new key is
    /// registered under its own network.
    pub fn rotate_network_operator_key(&mut self, network_id: &str, new_key: NetworkOperatorKey, old_key_expiration: u64) -> (r: Result<()>)
        ensures
            r is Ok,
            final(self).operators() == old(self).operators().remove(network_id@).insert(new_key.network_id@, new_key),
            old(self).operators().contains_key(network_id@) ==> final(self).retired_operators()
                == old(self).retired_operators().push(
                (NetworkOperatorKey { expires_at: Some(old_key_expiration), ..old(self).operators()[network_id@] }),
            ),
            !old(self).operators().contains_key(network_id@) ==> final(self).retired_operators()
                == old(self).retired_operators(),
            final(self).validators() == old(self).validators(),
            final(self).epoch() == old(self).epoch(),
    {
        match self.network_operator_keys.remove(&network_id.to_string()) {
            Some(old_key) => {
                let mut retired = old_key;
                retired.set_expiration(old_key_expiration);
                self.retired_operator_keys.push(retired);
            },
            None => {},
        }
        self.add_network_operator_key(new_key);
        Ok(())
    }
}

impl Default for KeyManager {
    fn default() -> (m: Self)
        ensures
            m.validators() == Map::<Seq<u8>, ValidatorKey>::empty(),
            m.operators() == Map::<Seq<char>, NetworkOperatorKey>::empty(),
            m.epoch() == 0,
    {
        Self::new()
    }
}

/// A key is active from its first epoch until, not including, the epoch
/// it is deactivated at: never before its first epoch, never from its
/// deactivation on, always in between, and with no deactivation for good.
/// An operator key is valid before its expiry time and not from it on.
pub proof fn law_key_lifetimes(from: u32, until: Option<u32>, epoch: u32, later: u32, expires_at: Option<u64>, now: u64)
    ensures
        epoch < from ==> !active_in(from, until, epoch),
        until matches Some(u) && u <= epoch ==> !active_in(from, until, epoch),
        from <= epoch && (until matches Some(u) ==> epoch < u) ==> active_in(from, until, epoch),
        until is None && from <= epoch && epoch <= later ==> active_in(from, until, later),
        expires_at matches Some(e) && e <= now ==> !valid_at(expires_at, now),
        expires_at matches Some(e) && now < e ==> valid_at(expires_at, now),
        expires_at is None ==> valid_at(expires_at, now),
{
}

} // verus!
