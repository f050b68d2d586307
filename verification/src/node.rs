//! Decisions of the node's command line: the network a name selects, the
//! settings of the demonstration pipeline and the traffic it starts with,
//! how a block is looked up and how a validator's keys are made.
use vstd::prelude::*;
use crate::cdr_pipeline::{sample_added, CDRPipeline, CDRProofInputs, PipelineConfig, DAY_SECONDS};
use crate::network::operator_messages::Broadcast;
use crate::crypto::bls_mock::array32;
use crate::crypto::keys::{KeyPair, ValidatorKey};
use crate::crypto::{CryptoError, Result};
use crate::encoding::{hex_decode, hex_decoded, parse_u32, str_eq, u32_text};
use crate::primitives::primitives::{hash_data, Blake2bHash, NetworkId, NetworkIdView};

verus! {

/// The network that a name on the command line selects.
pub open spec fn network_named(name: Seq<char>) -> Option<NetworkIdView> {
    if name == "tmobile"@ {
        Some(NetworkIdView::Operator { name: "T-Mobile"@, country: "DE"@ })
    } else if name == "vodafone"@ {
        Some(NetworkIdView::Operator { name: "Vodafone"@, country: "UK"@ })
    } else if name == "orange"@ {
        Some(NetworkIdView::Operator { name: "Orange"@, country: "FR"@ })
    } else if name == "consortium"@ {
        Some(NetworkIdView::SPConsortium)
    } else if name == "devnet"@ {
        Some(NetworkIdView::DevNet)
    } else if name == "testnet"@ {
        Some(NetworkIdView::TestNet)
    } else {
        None
    }
}

/// The network a name selects: one of three operators, the consortium, the
/// development or the test network; `None` for any other name.
pub fn network_for_name(name: &str) -> (r: Option<NetworkId>)
    ensures
        r is None <==> network_named(name@) is None,
        r matches Some(n) ==> network_named(name@) == Some(n@),
{
    proof {
        reveal_strlit("tmobile");
        reveal_strlit("vodafone");
        reveal_strlit("orange");
        reveal_strlit("consortium");
        reveal_strlit("devnet");
        reveal_strlit("testnet");
    }
    if str_eq(name, "tmobile") {
        Some(NetworkId::new("T-Mobile", "DE"))
    } else if str_eq(name, "vodafone") {
        Some(NetworkId::new("Vodafone", "UK"))
    } else if str_eq(name, "orange") {
        Some(NetworkId::new("Orange", "FR"))
    } else if str_eq(name, "consortium") {
        Some(NetworkId::SPConsortium)
    } else if str_eq(name, "devnet") {
        Some(NetworkId::DevNet)
    } else if str_eq(name, "testnet") {
        Some(NetworkId::TestNet)
    } else {
        None
    }
}

/// Settings of the demonstration pipeline: proving keys under the data
/// directory, batches of a thousand records, settlement from one euro,
/// automatic acceptance up to five euros, triangular netting on.
pub fn demo_pipeline_config(data_dir: &str) -> (c: PipelineConfig)
    ensures
        c.keys_dir@ == data_dir@ + "/zkp_keys"@,
        c.batch_size == 1000,
        c.settlement_threshold_cents == 100,
        c.auto_accept_threshold_cents == 500,
        c.enable_triangular_netting,
{
    let mut keys_dir = data_dir.to_string();
    keys_dir.append("/zkp_keys");
    PipelineConfig {
        keys_dir,
        batch_size: 1000,
        settlement_threshold_cents: 100,
        auto_accept_threshold_cents: 500,
        enable_triangular_netting: true,
    }
}

/// T-Mobile in Germany.
pub open spec fn tmobile_de() -> NetworkIdView {
    NetworkIdView::Operator { name: "T-Mobile"@, country: "DE"@ }
}

/// Vodafone in the United Kingdom.
pub open spec fn vodafone_uk() -> NetworkIdView {
    NetworkIdView::Operator { name: "Vodafone"@, country: "UK"@ }
}

/// Orange in France.
pub open spec fn orange_fr() -> NetworkIdView {
    NetworkIdView::Operator { name: "Orange"@, country: "FR"@ }
}

/// Whether `after` is `before` with the sample batch between `home` and
/// `visited` added at some clock time a day or more after the epoch, where
/// `added`; else whether `after` is `before`.
pub open spec fn sample_step(
    before: CDRPipeline,
    after: CDRPipeline,
    home: NetworkIdView,
    visited: NetworkIdView,
    added: bool,
) -> bool {
    if added {
        exists|now: u64, r: (Broadcast, CDRProofInputs)|
            now >= DAY_SECONDS && #[trigger] sample_added(before, after, home, visited, now, r)
    } else {
        after == before
    }
}

/// Whether `before` becomes `after` through the three demonstration steps,
/// by way of `p1` and `p2`: T-Mobile to Vodafone, Vodafone to Orange, Orange
/// to T-Mobile, where `a`, `b` and `c` say which of them added a batch.
pub open spec fn seeded_via(
    before: CDRPipeline,
    p1: CDRPipeline,
    p2: CDRPipeline,
    after: CDRPipeline,
    a: bool,
    b: bool,
    c: bool,
) -> bool {
    &&& sample_step(before, p1, tmobile_de(), vodafone_uk(), a)
    &&& sample_step(p1, p2, vodafone_uk(), orange_fr(), b)
    &&& sample_step(p2, after, orange_fr(), tmobile_de(), c)
}

/// How many of three flags are set.
pub open spec fn flags_set(a: bool, b: bool, c: bool) -> int {
    (if a { 1int } else { 0int }) + (if b { 1int } else { 0int }) + (if c { 1int } else { 0int })
}

/// Whether `after` is `before` seeded with the demonstration traffic, of
/// which `added` batches came in.
pub open spec fn demo_seeded(before: CDRPipeline, after: CDRPipeline, added: int) -> bool {
    exists|p1: CDRPipeline, p2: CDRPipeline, a: bool, b: bool, c: bool|
        #[trigger] seeded_via(before, p1, p2, after, a, b, c) && added == flags_set(a, b, c)
}

/// Seeds a consortium node with roaming traffic around three operators:
/// T-Mobile to Vodafone, Vodafone to Orange and Orange to T-Mobile, each a
/// sample batch at the clock's time. Other networks start empty. Returns how
/// many sample batches were added.
pub fn seed_demo_traffic(pipeline: &mut CDRPipeline, network: &NetworkId) -> (added: usize)
    ensures
        !(network@ is SPConsortium) ==> added == 0 && *final(pipeline) == *old(pipeline),
        network@ is SPConsortium ==> demo_seeded(*old(pipeline), *final(pipeline), added as int),
        added <= 3,
        final(pipeline).proposals() == old(pipeline).proposals(),
        final(pipeline).statistics() == old(pipeline).statistics(),
{
    match network {
        NetworkId::SPConsortium => {},
        _ => {
            return 0;
        },
    }
    let ghost s0 = *pipeline;
    let mut added: usize = 0;
    let r1 = pipeline.add_sample_cdr_batch(NetworkId::new("T-Mobile", "DE"), NetworkId::new("Vodafone", "UK"));
    let ghost s1 = *pipeline;
    let a = r1.is_some();
    if a {
        added = added + 1;
    }
    let r2 = pipeline.add_sample_cdr_batch(NetworkId::new("Vodafone", "UK"), NetworkId::new("Orange", "FR"));
    let ghost s2 = *pipeline;
    let b = r2.is_some();
    if b {
        added = added + 1;
    }
    let r3 = pipeline.add_sample_cdr_batch(NetworkId::new("Orange", "FR"), NetworkId::new("T-Mobile", "DE"));
    let c = r3.is_some();
    if c {
        added = added + 1;
    }
    proof {
        if a {
            let now = choose|now: u64|
                now >= DAY_SECONDS && #[trigger] sample_added(s0, s1, tmobile_de(), vodafone_uk(), now, r1->Some_0);
            assert(sample_added(s0, s1, tmobile_de(), vodafone_uk(), now, r1->Some_0));
        }
        if b {
            let now = choose|now: u64|
                now >= DAY_SECONDS && #[trigger] sample_added(s1, s2, vodafone_uk(), orange_fr(), now, r2->Some_0);
            assert(sample_added(s1, s2, vodafone_uk(), orange_fr(), now, r2->Some_0));
        }
        if c {
            let now = choose|now: u64|
                now >= DAY_SECONDS && #[trigger] sample_added(s2, *pipeline, orange_fr(), tmobile_de(), now, r3->Some_0);
            assert(sample_added(s2, *pipeline, orange_fr(), tmobile_de(), now, r3->Some_0));
        }
        assert(seeded_via(s0, s1, s2, *pipeline, a, b, c));
        assert(added == flags_set(a, b, c));
    }
    added
}

/// How a block identifier given on the command line is read.
pub enum BlockQuery {
    /// A block number.
    Number(u32),
    /// A block hash, given as 64 hexadecimal digits.
    Hash(Blake2bHash),
    /// Hexadecimal text that is not 32 bytes long.
    WrongLength,
    /// Neither a number nor hexadecimal text.
    Invalid,
}

/// Reads a block identifier: a block number when the text is a decimal
/// `u32`, else a hash when it is hexadecimal text of 32 bytes.
pub fn parse_block_id(id: &str) -> (q: BlockQuery)
    ensures
        match q {
            BlockQuery::Number(n) => u32_text(id@) == Some(n),
            BlockQuery::Hash(h) => u32_text(id@) is None && hex_decoded(vstd::utf8::encode_utf8(id@)) == Some(h@),
            BlockQuery::WrongLength => u32_text(id@) is None && (hex_decoded(vstd::utf8::encode_utf8(id@)) matches Some(b)
                && b.len() != 32),
            BlockQuery::Invalid => u32_text(id@) is None && hex_decoded(vstd::utf8::encode_utf8(id@)) is None,
        },
{
    match parse_u32(id) {
        Some(n) => BlockQuery::Number(n),
        None => match hex_decode(id) {
            Some(bytes) => {
                if bytes.len() == 32 {
                    BlockQuery::Hash(Blake2bHash::from_bytes(array32(bytes.as_slice())))
                } else {
                    BlockQuery::WrongLength
                }
            },
            None => BlockQuery::Invalid,
        },
    }
}

/// Keys of a new validator: a fresh signing key pair, and a validator key
/// holding its compressed public key, a fixed 32-byte voting key, and the
/// digests of fixed texts as address and reward address, active from the
/// first epoch.
pub fn generate_validator_identity() -> (r: Result<(KeyPair, ValidatorKey)>)
    ensures
        r matches Err(e) ==> e is KeyGenerationFailed,
        r matches Ok((kp, vk)) ==> {
            &&& vk.voting_key@ == Seq::new(32, |i: int| 42u8)
            &&& vk.active_from_epoch == 0
            &&& vk.inactive_from_epoch is None
            &&& vk.signing_key.inner.bytes() == kp.public_key.bytes()
        },
{
    let signing_keypair = KeyPair::generate()?;
    let voting_key = vec![42u8; 32];
    let signing_key = signing_keypair.public_key.compress();
    assert(voting_key@ =~= Seq::new(32, |i: int| 42u8));
    match ValidatorKey::new(
        hash_data("generated_validator".as_bytes()),
        signing_key,
        voting_key,
        hash_data("reward_address".as_bytes()),
        0,
    ) {
        Ok(vk) => Ok((signing_keypair, vk)),
        Err(e) => Err(e),
    }
}

} // verus!
