//! Round-based agreement of validators on blocks: proposal, pre-votes and
//! pre-commits signed with BLS keys, commit, view changes and sync. Each
//! validator keeps the state of the current round; handling a message
//! updates it and returns what the node must send or apply. Peers are named
//! by the text of their peer id.
use vstd::prelude::*;
use crate::blockchain::block::{Block, MicroBlock, MicroBody, MicroHeader, Transaction};
use crate::collections::{inserted_seq, VecMap};
use crate::crypto::bls::{bls_sign_of, dst_bytes, operator_check, outcome, BLSPrivateKey, BLSPublicKey, BLSVerifier};
use crate::encoding::{le_bytes, push_str, u64_to_le};
use crate::primitives::error::{BlockchainError, Result};
use crate::primitives::primitives::{hash_data, sha256, zero_bytes, Blake2bHash, NetworkId, NetworkIdView};

verus! {

/// Why a validator asks to move to another round.
#[derive(Debug, Clone, Copy, PartialEq, Eq, Structural)]
pub enum ViewChangeReason {
    Timeout,
    InvalidProposal,
    NetworkPartition,
}

/// Stage of a round.
#[derive(Debug, Clone, Copy, PartialEq, Eq, Structural)]
pub enum ConsensusPhase {
    Propose,
    PreVote,
    PreCommit,
    Commit,
}

/// Messages between validators.
#[derive(Debug)]
pub enum ConsensusMessage {
    /// A block proposed for a round.
    Propose { block: Block, proposer_id: String, round: u64, signature: Vec<u8> },
    /// A first-stage vote for a block.
    PreVote { block_hash: Blake2bHash, round: u64, voter_id: String, signature: Vec<u8> },
    /// A second-stage vote for a block.
    PreCommit { block_hash: Blake2bHash, round: u64, voter_id: String, signature: Vec<u8> },
    /// A block committed, with the pre-commits for it.
    Commit { block_hash: Blake2bHash, round: u64, height: u64, signatures: Vec<(String, Vec<u8>)> },
    /// A request to move to another round.
    ViewChange { round: u64, height: u64, requester_id: String, reason: ViewChangeReason },
    /// A request for blocks.
    SyncRequest { from_height: u64, to_height: Option<u64>, requester_id: String },
    /// Blocks sent in answer to a sync request.
    SyncResponse { blocks: Vec<Block>, current_height: u64, responder_id: String },
}

/// State of the current round.
pub struct ConsensusState {
    pub current_round: u64,
    pub current_height: u64,
    pub phase: ConsensusPhase,
    pub proposed_block: Option<Block>,
    pub proposed_hash: Option<Blake2bHash>,
    pub pre_votes: VecMap<String, Blake2bHash>,
    pub pre_commits: VecMap<String, Blake2bHash>,
    pub validators: Vec<String>,
    pub validator_weights: VecMap<String, u64>,
}

/// Work that handling a message leaves to the node.
pub enum ConsensusAction {
    /// Broadcast a message to the validators.
    Broadcast(ConsensusMessage),
    /// Send a message to one peer.
    SendTo { peer: String, message: ConsensusMessage },
    /// Apply a committed block to the chain.
    ApplyBlock(Block),
}

/// Votes needed to move on: more than two thirds of `n` validators.
pub open spec fn required_votes(n: int) -> int {
    n * 2 / 3 + 1
}

/// Votes needed to move on: more than two thirds of `n` validators.
pub fn votes_needed(n: usize) -> (v: usize)
    ensures
        v == required_votes(n as int),
{
    let q = n / 3;
    let r = n % 3;
    assert(n * 2 / 3 == q * 2 + r * 2 / 3) by (nonlinear_arith)
        requires
            q == n / 3,
            r == n % 3,
            n >= 0,
    ;
    q * 2 + r * 2 / 3 + 1
}

/// The votes needed are the fewest that make more than two thirds: one vote
/// fewer would be at most two thirds of the validators, and never more
/// than all of them are needed once there is a validator.
pub proof fn law_quorum_is_smallest(n: int)
    requires
        n >= 0,
    ensures
        3 * (required_votes(n) - 1) <= 2 * n,
        3 * required_votes(n) > 2 * n,
        n >= 1 ==> required_votes(n) <= n,
{
    let q = n * 2 / 3;
    assert(3 * q <= 2 * n && 2 * n < 3 * q + 3) by (nonlinear_arith)
        requires
            q == n * 2 / 3,
            n >= 0,
    ;
}

/// More than two thirds of the validators are needed, so any two such
/// groups of validators share at least one.
pub proof fn law_quorums_overlap(n: int)
    requires
        n >= 0,
    ensures
        3 * required_votes(n) > 2 * n,
        2 * required_votes(n) > n,
{
}

/// Bytes a proposal's signature covers: the block's hash and the round
/// (little-endian).
pub open spec fn proposal_message(hash: Seq<u8>, round: u64) -> Seq<u8> {
    hash + le_bytes(round as nat)
}

/// Bytes a vote's signature covers: the block's hash, the round
/// (little-endian) and the stage's tag.
pub open spec fn vote_message(hash: Seq<u8>, round: u64, tag: Seq<char>) -> Seq<u8> {
    hash + le_bytes(round as nat) + vstd::utf8::encode_utf8(tag)
}

/// Bytes a proposal's or vote's signature covers.
fn signed_bytes(hash: &Blake2bHash, round: u64, tag: &str) -> (b: Vec<u8>)
    ensures
        b@ == hash@ + le_bytes(round as nat) + vstd::utf8::encode_utf8(tag@),
{
    let mut b: Vec<u8> = Vec::new();
    let mut i: usize = 0;
    while i < 32
        invariant
            i <= 32,
            b@ == hash@.subrange(0, i as int),
        decreases 32 - i,
    {
        b.push(hash.0[i]);
        i = i + 1;
        assert(b@ =~= hash@.subrange(0, i as int));
    }
    assert(hash@.subrange(0, 32) =~= hash@);
    let mut r = u64_to_le(round);
    b.append(&mut r);
    push_str(&mut b, tag);
    b
}

/// Whether a peer is among the validators.
pub open spec fn is_validator(validators: Seq<String>, peer: Seq<char>) -> bool {
    exists|i: int| 0 <= i < validators.len() && validators[i]@ == peer
}

/// The validator whose turn it is to propose in a round, by round-robin.
pub open spec fn round_proposer(validators: Seq<String>, round: u64) -> Seq<char>
    recommends
        validators.len() > 0,
{
    validators[((round as usize) as int) % (validators.len() as int)]@
}

/// Whether byte string `a` comes before `b`: at the first place where they
/// differ `a` has the smaller byte, or `a` is a proper prefix of `b`. This is
/// the order in which Rust compares strings.
pub open spec fn bytes_before(a: Seq<u8>, b: Seq<u8>) -> bool
    decreases a.len(),
{
    if a.len() == 0 {
        b.len() > 0
    } else if b.len() == 0 {
        false
    } else if a[0] != b[0] {
        a[0] < b[0]
    } else {
        bytes_before(a.drop_first(), b.drop_first())
    }
}

/// Whether peer id `a` comes before `b`, comparing their UTF-8 bytes.
pub open spec fn id_before(a: Seq<char>, b: Seq<char>) -> bool {
    bytes_before(vstd::utf8::encode_utf8(a), vstd::utf8::encode_utf8(b))
}

/// Whether the peer ids are in increasing order, so each occurs once.
pub open spec fn sorted_ids(s: Seq<String>) -> bool {
    forall|i: int, j: int| 0 <= i < j < s.len() ==> id_before(#[trigger] s[i]@, #[trigger] s[j]@)
}

proof fn lemma_bytes_irreflexive(a: Seq<u8>)
    ensures
        !bytes_before(a, a),
    decreases a.len(),
{
    if a.len() > 0 {
        lemma_bytes_irreflexive(a.drop_first());
    }
}

proof fn lemma_bytes_transitive(a: Seq<u8>, b: Seq<u8>, c: Seq<u8>)
    requires
        bytes_before(a, b),
        bytes_before(b, c),
    ensures
        bytes_before(a, c),
    decreases a.len(),
{
    if a.len() > 0 && b.len() > 0 && c.len() > 0 && a[0] == b[0] && b[0] == c[0] {
        lemma_bytes_transitive(a.drop_first(), b.drop_first(), c.drop_first());
    }
}

proof fn lemma_bytes_total(a: Seq<u8>, b: Seq<u8>)
    requires
        a != b,
    ensures
        bytes_before(a, b) || bytes_before(b, a),
    decreases a.len(),
{
    if a.len() > 0 && b.len() > 0 && a[0] == b[0] {
        if a.drop_first() == b.drop_first() {
            assert(a =~= seq![a[0]] + a.drop_first());
            assert(b =~= seq![b[0]] + b.drop_first());
        }
        lemma_bytes_total(a.drop_first(), b.drop_first());
    } else if a.len() == 0 && b.len() == 0 {
        assert(a =~= b);
    }
}

/// Distinct peer ids are ordered one way or the other, and never both.
proof fn lemma_id_order(a: Seq<char>, b: Seq<char>, c: Seq<char>)
    ensures
        !id_before(a, a),
        a != b ==> id_before(a, b) || id_before(b, a),
        id_before(a, b) && id_before(b, c) ==> id_before(a, c),
{
    let ea = vstd::utf8::encode_utf8(a);
    let eb = vstd::utf8::encode_utf8(b);
    lemma_bytes_irreflexive(ea);
    if a != b {
        vstd::utf8::encode_utf8_decode_utf8(a);
        vstd::utf8::encode_utf8_decode_utf8(b);
        lemma_bytes_total(ea, eb);
    }
    if id_before(a, b) && id_before(b, c) {
        lemma_bytes_transitive(ea, eb, vstd::utf8::encode_utf8(c));
    }
}

/// Whether peer id `a` comes before `b`.
fn id_less(a: &String, b: &String) -> (r: bool)
    ensures
        r == id_before(a@, b@),
{
    let x = a.as_str().as_bytes_vec();
    let y = b.as_str().as_bytes_vec();
    let mut i: usize = 0;
    assert(x@.skip(0) =~= x@ && y@.skip(0) =~= y@);
    while i < x.len() && i < y.len()
        invariant
            0 <= i <= x@.len(),
            i <= y@.len(),
            x@ == vstd::utf8::encode_utf8(a@),
            y@ == vstd::utf8::encode_utf8(b@),
            bytes_before(x@, y@) == bytes_before(x@.skip(i as int), y@.skip(i as int)),
        decreases x@.len() - i,
    {
        if x[i] != y[i] {
            return x[i] < y[i];
        }
        assert(x@.skip(i as int).drop_first() =~= x@.skip(i + 1));
        assert(y@.skip(i as int).drop_first() =~= y@.skip(i + 1));
        i = i + 1;
    }
    i < y.len()
}

/// The validators, each once, in increasing order of peer id.
fn sorted_validators(validators: &Vec<String>) -> (out: Vec<String>)
    ensures
        sorted_ids(out@),
        forall|p: Seq<char>| is_validator(out@, p) <==> is_validator(validators@, p),
{
    let mut out: Vec<String> = Vec::new();
    let mut i: usize = 0;
    while i < validators.len()
        invariant
            0 <= i <= validators@.len(),
            sorted_ids(out@),
            forall|p: Seq<char>| is_validator(out@, p) <==> is_validator(validators@.subrange(0, i as int), p),
        decreases validators@.len() - i,
    {
        let item = &validators[i];
        let mut k: usize = 0;
        while k < out.len() && id_less(&out[k], item)
            invariant
                0 <= k <= out@.len(),
                forall|j: int| 0 <= j < k ==> id_before(#[trigger] out@[j]@, item@),
            decreases out@.len() - k,
        {
            k = k + 1;
        }
        let ghost before = out@;
        let present = k < out.len() && out[k] == *item;
        let ghost pre0 = validators@.subrange(0, i as int);
        let ghost pre1 = validators@.subrange(0, i + 1);
        proof {
            assert forall|p: Seq<char>| is_validator(pre1, p) <==> (is_validator(pre0, p) || p == item@) by {
                if is_validator(pre1, p) {
                    let j = choose|j: int| 0 <= j < pre1.len() && pre1[j]@ == p;
                    if j < i {
                        assert(pre0[j]@ == p);
                    }
                }
                if is_validator(pre0, p) {
                    let j = choose|j: int| 0 <= j < pre0.len() && pre0[j]@ == p;
                    assert(pre1[j]@ == p);
                }
                if p == item@ {
                    assert(pre1[i as int]@ == p);
                }
            }
        }
        if !present {
            out.insert(k, item.clone());
            proof {
                assert(out@[k as int]@ == item@);
                if k < before.len() {
                    lemma_id_order(before[k as int]@, item@, item@);
                    assert(id_before(item@, before[k as int]@));
                }
                assert forall|a: int, b: int| 0 <= a < b < out@.len() implies id_before(#[trigger] out@[a]@, #[trigger] out@[b]@) by {
                    if a < k && b == k {
                    } else if a < k && b > k {
                        assert(out@[b] == before[b - 1]);
                        assert(id_before(before[a]@, item@));
                        if b - 1 > k {
                            assert(id_before(before[k as int]@, before[b - 1]@));
                            lemma_id_order(item@, before[k as int]@, before[b - 1]@);
                        }
                        lemma_id_order(before[a]@, item@, before[b - 1]@);
                    } else if a == k {
                        assert(out@[b] == before[b - 1]);
                        if b - 1 > k {
                            assert(id_before(before[k as int]@, before[b - 1]@));
                            lemma_id_order(item@, before[k as int]@, before[b - 1]@);
                        }
                    } else if a > k {
                        assert(out@[a] == before[a - 1] && out@[b] == before[b - 1]);
                    } else {
                        assert(out@[a] == before[a] && out@[b] == before[b]);
                    }
                }
                assert forall|p: Seq<char>| is_validator(out@, p) <==> (is_validator(before, p) || p == item@) by {
                    if is_validator(out@, p) {
                        let j = choose|j: int| 0 <= j < out@.len() && out@[j]@ == p;
                        if j < k {
                            assert(before[j]@ == p);
                        } else if j > k {
                            assert(before[j - 1]@ == p);
                        }
                    }
                    if is_validator(before, p) {
                        let j = choose|j: int| 0 <= j < before.len() && before[j]@ == p;
                        if j < k {
                            assert(out@[j]@ == p);
                        } else {
                            assert(out@[j + 1]@ == p);
                        }
                    }
                }
            }
        } else {
            proof {
                assert(out@[k as int]@ == item@);
                assert(is_validator(out@, item@));
            }
        }
        proof {
            assert forall|p: Seq<char>| is_validator(out@, p) <==> is_validator(pre1, p) by {
                assert(is_validator(before, p) <==> is_validator(pre0, p));
            }
        }
        i = i + 1;
    }
    proof {
        assert(validators@.subrange(0, validators@.len() as int) =~= validators@);
    }
    out
}

/// Two lists of validators in increasing order with the same members are
/// the same list.
proof fn lemma_sorted_unique(a: Seq<String>, b: Seq<String>)
    requires
        sorted_ids(a),
        sorted_ids(b),
        forall|p: Seq<char>| is_validator(a, p) <==> is_validator(b, p),
    ensures
        a.len() == b.len(),
        forall|i: int| 0 <= i < a.len() ==> #[trigger] a[i]@ == b[i]@,
    decreases a.len(),
{
    if a.len() == 0 {
        if b.len() > 0 {
            assert(is_validator(b, b[0]@));
        }
    } else if b.len() == 0 {
        assert(is_validator(a, a[0]@));
    } else {
        let x = a[0]@;
        let y = b[0]@;
        assert(is_validator(b, y));
        assert(is_validator(a, x));
        let j = choose|j: int| 0 <= j < a.len() && a[j]@ == y;
        let k = choose|k: int| 0 <= k < b.len() && b[k]@ == x;
        if x != y {
            assert(j > 0 && k > 0);
            assert(id_before(a[0]@, a[j]@));
            assert(id_before(b[0]@, b[k]@));
            lemma_id_order(x, y, x);
            assert(false);
        }
        let a1 = a.drop_first();
        let b1 = b.drop_first();
        assert(sorted_ids(a1)) by {
            assert forall|i: int, i2: int| 0 <= i < i2 < a1.len() implies id_before(#[trigger] a1[i]@, #[trigger] a1[i2]@) by {
                assert(a1[i] == a[i + 1] && a1[i2] == a[i2 + 1]);
            }
        }
        assert(sorted_ids(b1)) by {
            assert forall|i: int, i2: int| 0 <= i < i2 < b1.len() implies id_before(#[trigger] b1[i]@, #[trigger] b1[i2]@) by {
                assert(b1[i] == b[i + 1] && b1[i2] == b[i2 + 1]);
            }
        }
        assert forall|p: Seq<char>| is_validator(a1, p) <==> is_validator(b1, p) by {
            lemma_id_order(x, x, x);
            if is_validator(a1, p) {
                let i = choose|i: int| 0 <= i < a1.len() && a1[i]@ == p;
                assert(a[i + 1]@ == p);
                assert(id_before(a[0]@, a[i + 1]@));
                assert(p != x);
                assert(is_validator(b, p));
                let q = choose|q: int| 0 <= q < b.len() && b[q]@ == p;
                assert(q > 0);
                assert(b1[q - 1]@ == p);
            }
            if is_validator(b1, p) {
                let i = choose|i: int| 0 <= i < b1.len() && b1[i]@ == p;
                assert(b[i + 1]@ == p);
                assert(id_before(b[0]@, b[i + 1]@));
                assert(p != y);
                assert(is_validator(a, p));
                let q = choose|q: int| 0 <= q < a.len() && a[q]@ == p;
                assert(q > 0);
                assert(a1[q - 1]@ == p);
            }
        }
        lemma_sorted_unique(a1, b1);
        assert forall|i: int| 0 <= i < a.len() implies #[trigger] a[i]@ == b[i]@ by {
            if i > 0 {
                assert(a1[i - 1] == a[i] && b1[i - 1] == b[i]);
            }
        }
    }
}

/// Validators who hold the same set of validators, each in increasing
/// order, agree on who proposes in every round.
pub proof fn law_same_validators_same_proposer(a: Seq<String>, b: Seq<String>, round: u64)
    requires
        sorted_ids(a),
        sorted_ids(b),
        a.len() > 0,
        forall|p: Seq<char>| is_validator(a, p) <==> is_validator(b, p),
    ensures
        round_proposer(a, round) == round_proposer(b, round),
{
    lemma_sorted_unique(a, b);
    let i = ((round as usize) as int) % (a.len() as int);
    assert(a[i]@ == b[i]@);
}

/// Number of votes (voter, block hash) for `hash`.
pub open spec fn votes_for(votes: Seq<(String, Blake2bHash)>, hash: Seq<u8>) -> nat
    decreases votes.len(),
{
    if votes.len() == 0 {
        0
    } else {
        votes_for(votes.drop_last(), hash) + if votes.last().1@ == hash {
            1nat
        } else {
            0nat
        }
    }
}

/// The votes counted for a block are exactly the votes naming its hash:
/// as many as the votes kept when only those for `hash` are kept, and never
/// more than all the votes.
pub proof fn law_votes_counted(votes: Seq<(String, Blake2bHash)>, hash: Seq<u8>)
    ensures
        votes_for(votes, hash) == votes.filter(|e: (String, Blake2bHash)| e.1@ == hash).len(),
        votes_for(votes, hash) <= votes.len(),
    decreases votes.len(),
{
    reveal(Seq::filter);
    if votes.len() > 0 {
        law_votes_counted(votes.drop_last(), hash);
    }
}

/// Number of votes for `hash`.
fn count_votes(votes: &VecMap<String, Blake2bHash>, hash: &Blake2bHash) -> (n: usize)
    ensures
        n == votes_for(votes.entry_seq(), hash@),
{
    let entries = votes.entries();
    let mut n: usize = 0;
    let mut i: usize = 0;
    while i < entries.len()
        invariant
            i <= entries@.len(),
            entries@ == votes.entry_seq(),
            n == votes_for(entries@.subrange(0, i as int), hash@),
            n <= i,
        decreases entries@.len() - i,
    {
        assert(entries@.subrange(0, i + 1).drop_last() =~= entries@.subrange(0, i as int));
        assert(entries@.subrange(0, i + 1).last() == entries@[i as int]);
        if entries[i].1 == *hash {
            n = n + 1;
        }
        i = i + 1;
    }
    assert(entries@.subrange(0, entries@.len() as int) =~= entries@);
    n
}

/// Keys registered one after another, a later key for a peer replacing an
/// earlier one.
pub open spec fn key_map(keys: Seq<(String, BLSPublicKey)>) -> Map<Seq<char>, BLSPublicKey>
    decreases keys.len(),
{
    if keys.len() == 0 {
        Map::empty()
    } else {
        key_map(keys.drop_last()).insert(keys.last().0@, keys.last().1)
    }
}

/// Seconds a round may last.
pub const ROUND_TIMEOUT_SECONDS: u64 = 30;

/// Fewest validators for agreement.
pub const MIN_VALIDATORS: usize = 3;

/// A validator's side of agreement on blocks: the state of the current
/// round, its signing key and the validators' public keys.
pub struct ConsensusNetwork {
    state: ConsensusState,
    network_id: NetworkId,
    local_peer_id: String,
    timeout_duration: u64,
    min_validators: usize,
    validator_private_key: BLSPrivateKey,
    bls_verifier: BLSVerifier,
}

/// Whether `s1` is the state of the next round after `s0`: round and height
/// one more, back to proposing, with no proposal and no votes.
pub open spec fn next_round(s0: ConsensusState, s1: ConsensusState) -> bool {
    &&& s1.current_round == s0.current_round + 1
    &&& s1.current_height == s0.current_height + 1
    &&& s1.phase == ConsensusPhase::Propose
    &&& s1.proposed_block is None
    &&& s1.proposed_hash is None
    &&& s1.pre_votes@ == Map::<Seq<char>, Blake2bHash>::empty()
    &&& s1.pre_commits@ == Map::<Seq<char>, Blake2bHash>::empty()
    &&& s1.validators@ == s0.validators@
    &&& s1.validator_weights@ == s0.validator_weights@
}

impl ConsensusNetwork {
    /// State of the current round.
    pub closed spec fn st(&self) -> ConsensusState {
        self.state
    }

    /// The validators are kept each once, in increasing order of peer id.
    #[verifier::type_invariant]
    closed spec fn validators_sorted(&self) -> bool {
        sorted_ids(self.state.validators@)
    }

    /// This validator's peer id.
    pub closed spec fn local(&self) -> Seq<char> {
        self.local_peer_id@
    }

    /// The validators' public keys, by peer id.
    pub closed spec fn keys(&self) -> Map<Seq<char>, BLSPublicKey> {
        self.bls_verifier.operators()
    }

    /// This validator's signing key material.
    pub closed spec fn signing_key(&self) -> Seq<u8> {
        self.validator_private_key.scalar()
    }

    /// The network this validator belongs to.
    pub closed spec fn network(&self) -> NetworkIdView {
        self.network_id@
    }

    /// Seconds a round may last.
    pub closed spec fn round_timeout(&self) -> u64 {
        self.timeout_duration
    }

    /// Fewest validators wanted for agreement.
    pub closed spec fn least_validators(&self) -> usize {
        self.min_validators
    }

    /// Whether the other parts of two states agree: network, peer id, signing
    /// key, validators' keys and settings.
    pub open spec fn same_setup(&self, other: &Self) -> bool {
        &&& self.local() == other.local()
        &&& self.keys() == other.keys()
        &&& self.signing_key() == other.signing_key()
        &&& self.network() == other.network()
        &&& self.round_timeout() == other.round_timeout()
        &&& self.least_validators() == other.least_validators()
    }

    /// A validator at round 0, height 0, proposing, among `validators` (kept
    /// each once, in increasing order of peer id, so that every validator
    /// holding the same set picks the same proposer) with their weights, with
    /// its signing key and the validators' public keys (by peer id); rounds
    /// last 30 seconds and at least 3 validators are wanted.
    pub fn new(
        network_id: NetworkId,
        local_peer_id: String,
        validators: Vec<String>,
        validator_weights: VecMap<String, u64>,
        validator_private_key: BLSPrivateKey,
        validator_public_keys: Vec<(String, BLSPublicKey)>,
    ) -> (c: Self)
        ensures
            c.st().current_round == 0,
            c.st().current_height == 0,
            c.st().phase == ConsensusPhase::Propose,
            c.st().proposed_block is None,
            c.st().proposed_hash is None,
            c.st().pre_votes@ == Map::<Seq<char>, Blake2bHash>::empty(),
            c.st().pre_commits@ == Map::<Seq<char>, Blake2bHash>::empty(),
            sorted_ids(c.st().validators@),
            forall|p: Seq<char>| is_validator(c.st().validators@, p) <==> is_validator(validators@, p),
            c.st().validator_weights@ == validator_weights@,
            c.local() == local_peer_id@,
            c.keys() == key_map(validator_public_keys@),
            c.signing_key() == validator_private_key.scalar(),
            c.network() == network_id@,
            c.round_timeout() == ROUND_TIMEOUT_SECONDS,
            c.least_validators() == MIN_VALIDATORS,
    {
        let validators = sorted_validators(&validators);
        let state = ConsensusState {
            current_round: 0,
            current_height: 0,
            phase: ConsensusPhase::Propose,
            proposed_block: None,
            proposed_hash: None,
            pre_votes: VecMap::new(),
            pre_commits: VecMap::new(),
            validators,
            validator_weights,
        };
        let mut bls_verifier = BLSVerifier::new();
        let mut i: usize = 0;
        while i < validator_public_keys.len()
            invariant
                i <= validator_public_keys@.len(),
                bls_verifier.operators() == key_map(validator_public_keys@.subrange(0, i as int)),
            decreases validator_public_keys@.len() - i,
        {
            assert(validator_public_keys@.subrange(0, i + 1).drop_last() =~= validator_public_keys@.subrange(0, i as int));
            assert(validator_public_keys@.subrange(0, i + 1).last() == validator_public_keys@[i as int]);
            bls_verifier.register_operator(validator_public_keys[i].0.as_str(), validator_public_keys[i].1.copy_key());
            i = i + 1;
        }
        assert(validator_public_keys@.subrange(0, validator_public_keys@.len() as int) =~= validator_public_keys@);
        ConsensusNetwork {
            state,
            network_id,
            local_peer_id,
            timeout_duration: ROUND_TIMEOUT_SECONDS,
            min_validators: MIN_VALIDATORS,
            validator_private_key,
            bls_verifier,
        }
    }

    /// State of the current round.
    pub fn get_state(&self) -> (s: &ConsensusState)
        ensures
            *s == self.st(),
            sorted_ids(s.validators@),
    {
        proof {
            use_type_invariant(self);
        }
        &self.state
    }

    /// Whether a peer is a validator.
    fn has_validator(&self, peer: &String) -> (r: bool)
        ensures
            r == is_validator(self.st().validators@, peer@),
    {
        let mut i: usize = 0;
        while i < self.state.validators.len()
            invariant
                i <= self.state.validators@.len(),
                forall|j: int| 0 <= j < i ==> self.state.validators@[j]@ != peer@,
            decreases self.state.validators@.len() - i,
        {
            if self.state.validators[i] == *peer {
                return true;
            }
            i = i + 1;
        }
        false
    }

    /// Whether this validator proposes in `round`, by round-robin over the
    /// validators.
    pub fn is_proposer(&self, round: u64) -> (r: bool)
        ensures
            r == (self.st().validators@.len() > 0 && round_proposer(self.st().validators@, round) == self.local()),
            sorted_ids(self.st().validators@),
    {
        proof {
            use_type_invariant(self);
        }
        let n = self.state.validators.len();
        if n == 0 {
            return false;
        }
        let index = (round as usize) % n;
        self.state.validators[index] == self.local_peer_id
    }

    /// Whether `proposer_id` is a validator whose turn it is to propose in
    /// `round`. The validators are always held in increasing order, so any
    /// two validators holding the same set agree on every round's proposer
    /// (`law_same_validators_same_proposer`).
    pub fn is_valid_proposer(&self, proposer_id: &String, round: u64) -> (r: bool)
        ensures
            r == (is_validator(self.st().validators@, proposer_id@) && round_proposer(self.st().validators@, round)
                == proposer_id@),
            sorted_ids(self.st().validators@),
    {
        proof {
            use_type_invariant(self);
        }
        if !self.has_validator(proposer_id) {
            return false;
        }
        let n = self.state.validators.len();
        let index = (round as usize) % n;
        self.state.validators[index] == *proposer_id
    }

    /// Moves to the next round.
    fn start_new_round(&mut self)
        requires
            old(self).st().current_round < u64::MAX,
            old(self).st().current_height < u64::MAX,
        ensures
            next_round(old(self).st(), final(self).st()),
            final(self).same_setup(old(self)),
    {
        proof {
            use_type_invariant(&*self);
        }
        self.state.current_round = self.state.current_round + 1;
        self.state.current_height = self.state.current_height + 1;
        self.state.phase = ConsensusPhase::Propose;
        self.state.proposed_block = None;
        self.state.proposed_hash = None;
        self.state.pre_votes = VecMap::new();
        self.state.pre_commits = VecMap::new();
    }

    /// Asks the validators for blocks from `from_height` on.
    pub fn request_sync(&self, from_height: u64) -> (a: ConsensusAction)
        ensures
            a matches ConsensusAction::Broadcast(ConsensusMessage::SyncRequest { from_height: f, to_height, requester_id })
                && f == from_height && to_height is None && requester_id@ == self.local(),
    {
        ConsensusAction::Broadcast(
            ConsensusMessage::SyncRequest {
                from_height,
                to_height: None,
                requester_id: self.local_peer_id.clone(),
            },
        )
    }
}

/// Whether a proposed block passes: it carries transactions.
pub fn validate_block(block: &Block) -> (r: bool)
    ensures
        r == validate_block_spec(*block),
{
    block.transactions().len() > 0
}

/// The block a proposer puts forward at `height` and time `now`: an empty
/// micro block of the consortium (`SP`, `Consortium`), version 1, with zero
/// parent, seed and roots.
pub fn create_block(height: u64, now: u64) -> (b: Block)
    ensures
        b matches Block::Micro(m) && {
            &&& m.header.network@ == (NetworkIdView::Operator { name: "SP"@, country: "Consortium"@ })
            &&& m.header.version == 1
            &&& m.header.block_number == height as u32
            &&& m.header.timestamp == now
            &&& m.header.parent_hash@ == zero_bytes()
            &&& m.header.seed@ == zero_bytes()
            &&& m.header.extra_data@.len() == 0
            &&& m.header.state_root@ == zero_bytes()
            &&& m.header.body_root@ == zero_bytes()
            &&& m.header.history_root@ == zero_bytes()
            &&& m.body.transactions@.len() == 0
        },
{
    let seed = Blake2bHash::from_bytes([0u8; 32]);
    assert(seed@ =~= zero_bytes());
    Block::Micro(
        MicroBlock {
            header: MicroHeader {
                network: NetworkId::new("SP", "Consortium"),
                version: 1,
                block_number: height as u32,
                timestamp: now,
                parent_hash: Blake2bHash::default(),
                seed,
                extra_data: Vec::new(),
                state_root: Blake2bHash::default(),
                body_root: Blake2bHash::default(),
                history_root: Blake2bHash::default(),
            },
            body: MicroBody { transactions: Vec::new() },
        },
    )
}

/// Whether a peer's signature on bytes checks out against its registered
/// key.
pub open spec fn signature_ok(keys: Map<Seq<char>, BLSPublicKey>, peer: Seq<char>, msg: Seq<u8>, sig: Seq<u8>) -> bool {
    operator_check(keys, peer, msg, sig) == Ok::<bool, Seq<char>>(true)
}

/// Whether a proposal is taken up: for the current round, while proposing,
/// from the validator whose turn it is, signed by it over the block's hash
/// and the round.
pub open spec fn proposal_taken(c: ConsensusNetwork, proposer: Seq<char>, round: u64, hash: Seq<u8>, sig: Seq<u8>) -> bool {
    &&& round == c.st().current_round
    &&& c.st().phase == ConsensusPhase::Propose
    &&& is_validator(c.st().validators@, proposer)
    &&& round_proposer(c.st().validators@, round) == proposer
    &&& signature_ok(c.keys(), proposer, proposal_message(hash, round), sig)
}

/// Whether a vote is counted: for the current round, from a validator,
/// signed by it over the block's hash, the round and the stage's tag.
pub open spec fn vote_counted(c: ConsensusNetwork, voter: Seq<char>, round: u64, hash: Seq<u8>, tag: Seq<char>, sig: Seq<u8>) -> bool {
    &&& round == c.st().current_round
    &&& is_validator(c.st().validators@, voter)
    &&& signature_ok(c.keys(), voter, vote_message(hash, round, tag), sig)
}

/// Whether an action broadcasts this validator's vote of a stage for a
/// block in a round, signed with `key` over the block's hash, the round and
/// the stage's tag (a signature of 96 bytes).
pub open spec fn own_vote(
    a: ConsensusAction,
    local: Seq<char>,
    key: Seq<u8>,
    hash: Seq<u8>,
    round: u64,
    precommit: bool,
) -> bool {
    if precommit {
        a matches ConsensusAction::Broadcast(ConsensusMessage::PreCommit { block_hash, round: r, voter_id, signature })
            && block_hash@ == hash && r == round && voter_id@ == local && signature@.len() == 96 && signature@
            == bls_sign_of(key, vote_message(hash, round, "precommit"@), dst_bytes())
    } else {
        a matches ConsensusAction::Broadcast(ConsensusMessage::PreVote { block_hash, round: r, voter_id, signature })
            && block_hash@ == hash && r == round && voter_id@ == local && signature@.len() == 96 && signature@
            == bls_sign_of(key, vote_message(hash, round, "prevote"@), dst_bytes())
    }
}

/// Bytes of a signature.
fn signature_bytes(sig: &[u8; 96]) -> (v: Vec<u8>)
    ensures
        v@ == sig@,
{
    let mut v: Vec<u8> = Vec::new();
    let mut i: usize = 0;
    while i < 96
        invariant
            i <= 96,
            v@ == sig@.subrange(0, i as int),
        decreases 96 - i,
    {
        v.push(sig[i]);
        i = i + 1;
        assert(v@ =~= sig@.subrange(0, i as int));
    }
    assert(sig@.subrange(0, 96) =~= sig@);
    v
}

impl ConsensusNetwork {
    /// Whether a peer's signature over bytes checks out; an unknown peer or
    /// a malformed signature counts as a bad one.
    fn check_signature(&self, peer: &String, message: &Vec<u8>, signature: &[u8]) -> (r: bool)
        ensures
            r == signature_ok(self.keys(), peer@, message@, signature@),
    {
        match self.bls_verifier.verify_operator_signature(peer.as_str(), message.as_slice(), signature) {
            Ok(valid) => valid,
            Err(_) => false,
        }
    }

    /// This validator's signature over bytes.
    fn sign_bytes(&self, message: &Vec<u8>) -> (v: Vec<u8>)
        ensures
            v@.len() == 96,
            v@ == bls_sign_of(self.signing_key(), message@, dst_bytes()),
    {
        match self.validator_private_key.sign(message.as_slice()) {
            Ok(sig) => signature_bytes(sig.to_bytes()),
            Err(_) => {
                proof {
                    assert(false);
                }
                Vec::new()
            },
        }
    }

    /// A proposal for the current round, while proposing, from the validator
    /// whose turn it is and signed by it, is taken up: a block with
    /// transactions becomes the round's proposal (its hash that of its
    /// encoding), and this validator pre-votes for it; an empty block gets a
    /// pre-vote for the zero hash, unsigned. Other proposals are ignored.
    pub fn handle_proposal(
        &mut self,
        block: Block,
        block_encoding: &[u8],
        proposer_id: &String,
        round: u64,
        signature: &[u8],
    ) -> (r: Vec<ConsensusAction>)
        ensures
            final(self).same_setup(old(self)),
            !proposal_taken(*old(self), proposer_id@, round, sha256(block_encoding@), signature@) ==> final(self).st()
                == old(self).st() && r@.len() == 0,
            proposal_taken(*old(self), proposer_id@, round, sha256(block_encoding@), signature@) && validate_block_spec(block)
                ==> {
                &&& final(self).st().proposed_hash matches Some(h) && h@ == sha256(block_encoding@)
                &&& final(self).st() == (ConsensusState {
                    proposed_block: Some(block),
                    proposed_hash: final(self).st().proposed_hash,
                    phase: ConsensusPhase::PreVote,
                    ..old(self).st()
                })
                &&& r@.len() == 1
                &&& own_vote(r@[0], old(self).local(), old(self).signing_key(), sha256(block_encoding@), round, false)
            },
            proposal_taken(*old(self), proposer_id@, round, sha256(block_encoding@), signature@) && !validate_block_spec(block)
                ==> {
                &&& final(self).st() == old(self).st()
                &&& r@.len() == 1
                &&& r@[0] matches ConsensusAction::Broadcast(ConsensusMessage::PreVote { block_hash, round: rd, voter_id, signature: s })
                    && block_hash@ == zero_bytes() && rd == round && voter_id@ == old(self).local() && s@.len() == 0
            },
    {
        proof {
            use_type_invariant(&*self);
        }
        let mut actions: Vec<ConsensusAction> = Vec::new();
        if round != self.state.current_round {
            return actions;
        }
        if self.state.phase != ConsensusPhase::Propose {
            return actions;
        }
        if !self.is_valid_proposer(proposer_id, round) {
            return actions;
        }
        let block_hash = hash_data(block_encoding);
        let message = signed_bytes(&block_hash, round, "");
        proof {
            reveal_strlit("");
            assert(vstd::utf8::encode_utf8(""@) =~= Seq::<u8>::empty()) by {
                vstd::utf8::encode_utf8_decode_utf8(""@);
            }
            assert(message@ =~= proposal_message(block_hash@, round));
        }
        if !self.check_signature(proposer_id, &message, signature) {
            return actions;
        }
        if validate_block(&block) {
            let prevote_message = signed_bytes(&block_hash, round, "prevote");
            let prevote_signature = self.sign_bytes(&prevote_message);
            self.state.proposed_block = Some(block);
            self.state.proposed_hash = Some(block_hash);
            self.state.phase = ConsensusPhase::PreVote;
            actions.push(
                ConsensusAction::Broadcast(
                    ConsensusMessage::PreVote {
                        block_hash,
                        round,
                        voter_id: self.local_peer_id.clone(),
                        signature: prevote_signature,
                    },
                ),
            );
        } else {
            actions.push(
                ConsensusAction::Broadcast(
                    ConsensusMessage::PreVote {
                        block_hash: Blake2bHash::default(),
                        round,
                        voter_id: self.local_peer_id.clone(),
                        signature: Vec::new(),
                    },
                ),
            );
        }
        actions
    }
}

/// Whether a block carries transactions.
pub open spec fn validate_block_spec(block: Block) -> bool {
    match block {
        Block::Micro(b) => b.body.transactions@.len() > 0,
        Block::Macro(b) => b.body.transactions@.len() > 0,
    }
}

/// The validators who voted for `hash`, each once with an empty signature.
#[verifier::loop_isolation(false)]
fn commit_signatures(votes: &VecMap<String, Blake2bHash>, hash: &Blake2bHash) -> (r: Vec<(String, Vec<u8>)>)
    ensures
        forall|i: int|
            0 <= i < r@.len() ==> votes@.contains_key((#[trigger] r@[i]).0@) && votes@[r@[i].0@]@ == hash@ && r@[i].1@.len()
                == 0,
        forall|v: Seq<char>|
            votes@.contains_key(v) && votes@[v]@ == hash@ ==> exists|i: int| 0 <= i < r@.len() && (#[trigger] r@[i]).0@ == v,
{
    let entries = votes.entries();
    let mut r: Vec<(String, Vec<u8>)> = Vec::new();
    let mut i: usize = 0;
    while i < entries.len()
        invariant
            i <= entries@.len(),
            forall|t: int|
                0 <= t < r@.len() ==> votes@.contains_key((#[trigger] r@[t]).0@) && votes@[r@[t].0@]@ == hash@
                    && r@[t].1@.len() == 0,
            forall|j: int|
                0 <= j < i && entries@[j].1@ == hash@ ==> exists|t: int|
                    0 <= t < r@.len() && (#[trigger] r@[t]).0@ == entries@[j].0@,
        decreases entries@.len() - i,
    {
        let ghost before = r@;
        if entries[i].1 == *hash {
            let name = entries[i].0.clone();
            r.push((name, Vec::new()));
            proof {
                assert(votes@.contains_key(entries@[i as int].0@));
                assert(r@[r@.len() - 1].0@ == entries@[i as int].0@);
            }
        }
        proof {
            assert forall|j: int|
                0 <= j < i + 1 && entries@[j].1@ == hash@ implies exists|t: int|
                    0 <= t < r@.len() && (#[trigger] r@[t]).0@ == entries@[j].0@ by {
                if j < i {
                    let t = choose|t: int| 0 <= t < before.len() && (#[trigger] before[t]).0@ == entries@[j].0@;
                    assert(r@[t] == before[t]);
                } else {
                    assert(r@[r@.len() - 1].0@ == entries@[j].0@);
                }
            }
        }
        i = i + 1;
    }
    proof {
        assert forall|v: Seq<char>| votes@.contains_key(v) && votes@[v]@ == hash@ implies exists|t: int|
            0 <= t < r@.len() && (#[trigger] r@[t]).0@ == v by {
            let j = choose|j: int| 0 <= j < entries@.len() && #[trigger] entries@[j].0@ == v;
            assert(votes@[entries@[j].0@] == entries@[j].1);
        }
    }
    r
}

impl ConsensusNetwork {
    /// A pre-vote for the current round from a validator, signed by it, is
    /// recorded (replacing its earlier one). Once the round's proposal has
    /// pre-votes from more than two thirds of the validators, this validator
    /// moves to pre-commit and pre-commits to it. Other pre-votes are
    /// ignored.
    pub fn handle_pre_vote(&mut self, block_hash: Blake2bHash, round: u64, voter_id: String, signature: &[u8]) -> (r: Vec<
        ConsensusAction,
    >)
        ensures
            final(self).same_setup(old(self)),
            !vote_counted(*old(self), voter_id@, round, block_hash@, "prevote"@, signature@) ==> final(self).st()
                == old(self).st() && r@.len() == 0,
            vote_counted(*old(self), voter_id@, round, block_hash@, "prevote"@, signature@) ==> {
                &&& final(self).st().pre_votes@ == old(self).st().pre_votes@.insert(voter_id@, block_hash)
                &&& if old(self).st().proposed_hash matches Some(ph) && votes_for(
                    final(self).st().pre_votes.entry_seq(),
                    ph@,
                ) >= required_votes(old(self).st().validators@.len() as int) {
                    &&& final(self).st() == (ConsensusState {
                        pre_votes: final(self).st().pre_votes,
                        phase: ConsensusPhase::PreCommit,
                        ..old(self).st()
                    })
                    &&& r@.len() == 1
                    &&& own_vote(r@[0], old(self).local(), old(self).signing_key(), old(self).st().proposed_hash->0@, round, true)
                } else {
                    &&& final(self).st() == (ConsensusState { pre_votes: final(self).st().pre_votes, ..old(self).st() })
                    &&& r@.len() == 0
                }
            },
    {
        proof {
            use_type_invariant(&*self);
        }
        let mut actions: Vec<ConsensusAction> = Vec::new();
        if round != self.state.current_round {
            return actions;
        }
        if !self.has_validator(&voter_id) {
            return actions;
        }
        let message = signed_bytes(&block_hash, round, "prevote");
        assert(message@ =~= vote_message(block_hash@, round, "prevote"@));
        if !self.check_signature(&voter_id, &message, signature) {
            return actions;
        }
        let mut votes: VecMap<String, Blake2bHash> = VecMap::new();
        std::mem::swap(&mut votes, &mut self.state.pre_votes);
        votes.insert(voter_id, block_hash);
        self.state.pre_votes = votes;
        match self.state.proposed_hash {
            Some(proposed_hash) => {
                let votes = count_votes(&self.state.pre_votes, &proposed_hash);
                if votes >= votes_needed(self.state.validators.len()) {
                    self.state.phase = ConsensusPhase::PreCommit;
                    let precommit_message = signed_bytes(&proposed_hash, round, "precommit");
                    let precommit_signature = self.sign_bytes(&precommit_message);
                    actions.push(
                        ConsensusAction::Broadcast(
                            ConsensusMessage::PreCommit {
                                block_hash: proposed_hash,
                                round,
                                voter_id: self.local_peer_id.clone(),
                                signature: precommit_signature,
                            },
                        ),
                    );
                }
            },
            None => {},
        }
        actions
    }

    /// A pre-commit for the current round from a validator, signed by it, is
    /// recorded (replacing its earlier one). Once the round's proposal has
    /// pre-commits from more than two thirds of the validators, the block is
    /// committed: the commit, naming those validators, is broadcast, the
    /// block is applied, and the next round begins. Other pre-commits are
    /// ignored.
    pub fn handle_pre_commit(&mut self, block_hash: Blake2bHash, round: u64, voter_id: String, signature: &[u8]) -> (r: Vec<
        ConsensusAction,
    >)
        requires
            old(self).st().current_round < u64::MAX,
            old(self).st().current_height < u64::MAX,
        ensures
            final(self).same_setup(old(self)),
            !vote_counted(*old(self), voter_id@, round, block_hash@, "precommit"@, signature@) ==> final(self).st()
                == old(self).st() && r@.len() == 0,
            vote_counted(*old(self), voter_id@, round, block_hash@, "precommit"@, signature@) ==> ({
                let commits = old(self).st().pre_commits@.insert(voter_id@, block_hash);
                if old(self).st().proposed_hash is Some && old(self).st().proposed_block is Some && votes_for(
                    inserted_seq(old(self).st().pre_commits.entry_seq(), voter_id, block_hash),
                    old(self).st().proposed_hash->0@,
                ) >= required_votes(old(self).st().validators@.len() as int) {
                    &&& next_round(old(self).st(), final(self).st())
                    &&& r@.len() == 2
                    &&& r@[0] matches ConsensusAction::Broadcast(ConsensusMessage::Commit { block_hash: h, round: rd, height, signatures })
                        && h == old(self).st().proposed_hash->0 && rd == round && height == old(self).st().current_height
                        && (forall|i: int|
                        0 <= i < signatures@.len() ==> commits.contains_key((#[trigger] signatures@[i]).0@)
                            && commits[signatures@[i].0@]@ == old(self).st().proposed_hash->0@ && signatures@[i].1@.len() == 0)
                        && (forall|v: Seq<char>|
                        commits.contains_key(v) && commits[v]@ == old(self).st().proposed_hash->0@ ==> exists|i: int|
                            0 <= i < signatures@.len() && (#[trigger] signatures@[i]).0@ == v)
                    &&& r@[1] == ConsensusAction::ApplyBlock(old(self).st().proposed_block->0)
                } else {
                    &&& final(self).st().pre_commits@ == commits
                    &&& final(self).st() == (ConsensusState { pre_commits: final(self).st().pre_commits, ..old(self).st() })
                    &&& r@.len() == 0
                }
            }),
    {
        proof {
            use_type_invariant(&*self);
        }
        let mut actions: Vec<ConsensusAction> = Vec::new();
        if round != self.state.current_round {
            return actions;
        }
        if !self.has_validator(&voter_id) {
            return actions;
        }
        let message = signed_bytes(&block_hash, round, "precommit");
        assert(message@ =~= vote_message(block_hash@, round, "precommit"@));
        if !self.check_signature(&voter_id, &message, signature) {
            return actions;
        }
        let mut votes: VecMap<String, Blake2bHash> = VecMap::new();
        std::mem::swap(&mut votes, &mut self.state.pre_commits);
        votes.insert(voter_id, block_hash);
        self.state.pre_commits = votes;
        if self.state.proposed_block.is_none() {
            return actions;
        }
        match self.state.proposed_hash {
            Some(proposed_hash) => {
                let commits = count_votes(&self.state.pre_commits, &proposed_hash);
                if commits >= votes_needed(self.state.validators.len()) {
                    let signatures = commit_signatures(&self.state.pre_commits, &proposed_hash);
                    self.state.phase = ConsensusPhase::Commit;
                    actions.push(
                        ConsensusAction::Broadcast(
                            ConsensusMessage::Commit {
                                block_hash: proposed_hash,
                                round,
                                height: self.state.current_height,
                                signatures,
                            },
                        ),
                    );
                    let mut block: Option<Block> = None;
                    std::mem::swap(&mut block, &mut self.state.proposed_block);
                    match block {
                        Some(b) => actions.push(ConsensusAction::ApplyBlock(b)),
                        None => {},
                    }
                    self.start_new_round();
                }
            },
            None => {},
        }
        actions
    }
}

/// Whether a commit is for the current round and height and the round's
/// proposal.
pub open spec fn commit_matches(c: ConsensusNetwork, hash: Seq<u8>, round: u64, height: u64) -> bool {
    &&& round == c.st().current_round
    &&& height == c.st().current_height
    &&& c.st().proposed_block is Some
    &&& c.st().proposed_hash is Some
    &&& c.st().proposed_hash->0@ == hash
}

impl ConsensusNetwork {
    /// A commit of the current round and height for the round's proposal
    /// applies the block and begins the next round; other commits are
    /// ignored.
    pub fn handle_commit(&mut self, block_hash: &Blake2bHash, round: u64, height: u64) -> (r: Vec<ConsensusAction>)
        requires
            old(self).st().current_round < u64::MAX,
            old(self).st().current_height < u64::MAX,
        ensures
            final(self).same_setup(old(self)),
            if commit_matches(*old(self), block_hash@, round, height) {
                &&& next_round(old(self).st(), final(self).st())
                &&& r@ == seq![ConsensusAction::ApplyBlock(old(self).st().proposed_block->0)]
            } else {
                final(self).st() == old(self).st() && r@.len() == 0
            },
    {
        proof {
            use_type_invariant(&*self);
        }
        let mut actions: Vec<ConsensusAction> = Vec::new();
        if round != self.state.current_round || height != self.state.current_height {
            return actions;
        }
        if self.state.proposed_block.is_none() {
            return actions;
        }
        let matches = match &self.state.proposed_hash {
            Some(h) => *h == *block_hash,
            None => false,
        };
        if matches {
            let mut block: Option<Block> = None;
            std::mem::swap(&mut block, &mut self.state.proposed_block);
            match block {
                Some(b) => actions.push(ConsensusAction::ApplyBlock(b)),
                None => {},
            }
            self.start_new_round();
        }
        actions
    }

    /// A request to change view begins the next round at once.
    pub fn handle_view_change(&mut self) -> (r: Vec<ConsensusAction>)
        requires
            old(self).st().current_round < u64::MAX,
            old(self).st().current_height < u64::MAX,
        ensures
            final(self).same_setup(old(self)),
            next_round(old(self).st(), final(self).st()),
            r@.len() == 0,
    {
        proof {
            use_type_invariant(&*self);
        }
        self.start_new_round();
        Vec::new()
    }

    /// A request for blocks is answered to the requester with no blocks and
    /// this validator's height.
    pub fn handle_sync_request(&self, requester_id: String) -> (r: Vec<ConsensusAction>)
        ensures
            r@.len() == 1,
            r@[0] matches ConsensusAction::SendTo { peer, message: ConsensusMessage::SyncResponse { blocks, current_height, responder_id } }
                && peer@ == requester_id@ && blocks@.len() == 0 && current_height == self.st().current_height
                && responder_id@ == self.local(),
    {
        let mut actions: Vec<ConsensusAction> = Vec::new();
        actions.push(
            ConsensusAction::SendTo {
                peer: requester_id,
                message: ConsensusMessage::SyncResponse {
                    blocks: Vec::new(),
                    current_height: self.state.current_height,
                    responder_id: self.local_peer_id.clone(),
                },
            },
        );
        actions
    }

    /// Blocks received in answer to a sync request are applied in order.
    pub fn handle_sync_response(&self, blocks: Vec<Block>) -> (r: Vec<ConsensusAction>)
        ensures
            r@.len() == blocks@.len(),
            forall|i: int| 0 <= i < r@.len() ==> r@[i] == ConsensusAction::ApplyBlock(blocks@[i]),
    {
        let ghost all = blocks@;
        let mut rest = blocks;
        let mut actions: Vec<ConsensusAction> = Vec::new();
        while rest.len() > 0
            invariant
                actions@.len() + rest@.len() == all.len(),
                forall|j: int| 0 <= j < rest@.len() ==> rest@[j] == all[actions@.len() + j],
                forall|i: int| 0 <= i < actions@.len() ==> actions@[i] == ConsensusAction::ApplyBlock(all[i]),
            decreases rest@.len(),
        {
            let b = rest.remove(0);
            actions.push(ConsensusAction::ApplyBlock(b));
        }
        actions
    }

    /// Starts agreement on `block` (whose encoding is `block_encoding`): when
    /// proposing and it is this validator's turn, the block becomes the
    /// round's proposal and is broadcast, signed over its hash and the round.
    /// Otherwise nothing happens.
    pub fn start_consensus(&mut self, block: Block, block_encoding: &[u8]) -> (r: Vec<ConsensusAction>)
        ensures
            final(self).same_setup(old(self)),
            old(self).st().phase == ConsensusPhase::Propose && old(self).st().validators@.len() > 0 && round_proposer(
                old(self).st().validators@,
                old(self).st().current_round,
            ) == old(self).local() ==> {
                &&& final(self).st().proposed_hash matches Some(h) && h@ == sha256(block_encoding@)
                &&& final(self).st() == (ConsensusState {
                    proposed_block: Some(block),
                    proposed_hash: final(self).st().proposed_hash,
                    phase: ConsensusPhase::PreVote,
                    ..old(self).st()
                })
                &&& r@.len() == 1
                &&& r@[0] matches ConsensusAction::Broadcast(ConsensusMessage::Propose { proposer_id, round, signature, .. })
                    && proposer_id@ == old(self).local() && round == old(self).st().current_round && signature@.len() == 96
                    && signature@ == bls_sign_of(
                    old(self).signing_key(),
                    proposal_message(sha256(block_encoding@), old(self).st().current_round),
                    dst_bytes(),
                )
            },
            !(old(self).st().phase == ConsensusPhase::Propose && old(self).st().validators@.len() > 0 && round_proposer(
                old(self).st().validators@,
                old(self).st().current_round,
            ) == old(self).local()) ==> final(self).st() == old(self).st() && r@.len() == 0,
    {
        proof {
            use_type_invariant(&*self);
        }
        let mut actions: Vec<ConsensusAction> = Vec::new();
        if self.state.phase != ConsensusPhase::Propose {
            return actions;
        }
        if !self.is_proposer(self.state.current_round) {
            return actions;
        }
        let block_hash = hash_data(block_encoding);
        let round = self.state.current_round;
        let message = signed_bytes(&block_hash, round, "");
        proof {
            reveal_strlit("");
            assert(vstd::utf8::encode_utf8(""@) =~= Seq::<u8>::empty()) by {
                vstd::utf8::encode_utf8_decode_utf8(""@);
            }
            assert(message@ =~= proposal_message(block_hash@, round));
        }
        let signature = self.sign_bytes(&message);
        let proposal = ConsensusMessage::Propose {
            block: block.clone(),
            proposer_id: self.local_peer_id.clone(),
            round,
            signature,
        };
        self.state.proposed_block = Some(block);
        self.state.proposed_hash = Some(block_hash);
        self.state.phase = ConsensusPhase::PreVote;
        actions.push(ConsensusAction::Broadcast(proposal));
        actions
    }

    /// Handles a message from another validator (with, for a proposal, the
    /// encoding of its block): updates the round's state and returns what the
    /// node must send or apply.
    pub fn handle_consensus_message(&mut self, message: ConsensusMessage, block_encoding: &[u8]) -> (r: Vec<ConsensusAction>)
        requires
            old(self).st().current_round < u64::MAX,
            old(self).st().current_height < u64::MAX,
        ensures
            final(self).same_setup(old(self)),
            match message {
                ConsensusMessage::Propose { proposer_id, round, signature, .. } => !proposal_taken(
                    *old(self),
                    proposer_id@,
                    round,
                    sha256(block_encoding@),
                    signature@,
                ) ==> final(self).st() == old(self).st() && r@.len() == 0,
                ConsensusMessage::PreVote { block_hash, round, voter_id, signature } => !vote_counted(
                    *old(self),
                    voter_id@,
                    round,
                    block_hash@,
                    "prevote"@,
                    signature@,
                ) ==> final(self).st() == old(self).st() && r@.len() == 0,
                ConsensusMessage::PreCommit { block_hash, round, voter_id, signature } => !vote_counted(
                    *old(self),
                    voter_id@,
                    round,
                    block_hash@,
                    "precommit"@,
                    signature@,
                ) ==> final(self).st() == old(self).st() && r@.len() == 0,
                ConsensusMessage::Commit { block_hash, round, height, .. } => !commit_matches(
                    *old(self),
                    block_hash@,
                    round,
                    height,
                ) ==> final(self).st() == old(self).st() && r@.len() == 0,
                ConsensusMessage::ViewChange { .. } => next_round(old(self).st(), final(self).st()) && r@.len() == 0,
                ConsensusMessage::SyncRequest { requester_id, .. } => final(self).st() == old(self).st() && r@.len() == 1
                    && (r@[0] matches ConsensusAction::SendTo { peer, .. } && peer@ == requester_id@),
                ConsensusMessage::SyncResponse { blocks, .. } => final(self).st() == old(self).st() && r@.len()
                    == blocks@.len() && forall|i: int| 0 <= i < r@.len() ==> r@[i] == ConsensusAction::ApplyBlock(blocks@[i]),
            },
    {
        proof {
            use_type_invariant(&*self);
        }
        match message {
            ConsensusMessage::Propose { block, proposer_id, round, signature } => {
                self.handle_proposal(block, block_encoding, &proposer_id, round, signature.as_slice())
            },
            ConsensusMessage::PreVote { block_hash, round, voter_id, signature } => {
                self.handle_pre_vote(block_hash, round, voter_id, signature.as_slice())
            },
            ConsensusMessage::PreCommit { block_hash, round, voter_id, signature } => {
                self.handle_pre_commit(block_hash, round, voter_id, signature.as_slice())
            },
            ConsensusMessage::Commit { block_hash, round, height, .. } => self.handle_commit(&block_hash, round, height),
            ConsensusMessage::ViewChange { .. } => self.handle_view_change(),
            ConsensusMessage::SyncRequest { requester_id, .. } => self.handle_sync_request(requester_id),
            ConsensusMessage::SyncResponse { blocks, .. } => self.handle_sync_response(blocks),
        }
    }
}

} // verus!
