//! The chain as a node holds it: a block store, the validator set, and the
//! heads that each pushed block moves on.
use vstd::prelude::*;
use crate::blockchain::block::{Block, MacroBlock, MacroBody, MacroHeader, MicroBlock, MicroHeader};
use crate::blockchain::validator_set::{infos_view, ValidatorInfo};
use crate::clock::unix_now;
use crate::common::consensus::{ChainInfo, ValidatorSet};
use crate::crypto::PublicKey;
use crate::primitives::error::Result;
use crate::primitives::primitives::{hash_data, Blake2bHash, NetworkId, NetworkIdView};
use crate::smart_contracts::vm::copy_bytes;
use crate::storage::chain_store::ChainStore;

verus! {

/// Whether two blocks are of the same kind with the same header.
pub open spec fn same_header(a: Block, b: Block) -> bool {
    match (a, b) {
        (Block::Micro(x), Block::Micro(y)) => {
            &&& x.header.network@ == y.header.network@
            &&& x.header.version == y.header.version
            &&& x.header.block_number == y.header.block_number
            &&& x.header.timestamp == y.header.timestamp
            &&& x.header.parent_hash == y.header.parent_hash
            &&& x.header.seed == y.header.seed
            &&& x.header.extra_data@ == y.header.extra_data@
            &&& x.header.state_root == y.header.state_root
            &&& x.header.body_root == y.header.body_root
            &&& x.header.history_root == y.header.history_root
        },
        (Block::Macro(x), Block::Macro(y)) => {
            &&& x.header.network@ == y.header.network@
            &&& x.header.version == y.header.version
            &&& x.header.block_number == y.header.block_number
            &&& x.header.round == y.header.round
            &&& x.header.timestamp == y.header.timestamp
            &&& x.header.parent_hash == y.header.parent_hash
            &&& x.header.parent_election_hash == y.header.parent_election_hash
            &&& x.header.seed == y.header.seed
            &&& x.header.extra_data@ == y.header.extra_data@
            &&& x.header.state_root == y.header.state_root
            &&& x.header.body_root == y.header.body_root
            &&& x.header.history_root == y.header.history_root
        },
        _ => false,
    }
}

/// A copy of a block: its header field by field, its body as cloned.
fn copy_block(b: &Block) -> (c: Block)
    ensures
        same_header(c, *b),
{
    match b {
        Block::Micro(m) => Block::Micro(
            MicroBlock {
                header: MicroHeader {
                    network: m.header.network.copy_id(),
                    version: m.header.version,
                    block_number: m.header.block_number,
                    timestamp: m.header.timestamp,
                    parent_hash: m.header.parent_hash,
                    seed: m.header.seed,
                    extra_data: copy_bytes(&m.header.extra_data),
                    state_root: m.header.state_root,
                    body_root: m.header.body_root,
                    history_root: m.header.history_root,
                },
                body: m.body.clone(),
            },
        ),
        Block::Macro(m) => Block::Macro(
            MacroBlock {
                header: MacroHeader {
                    network: m.header.network.copy_id(),
                    version: m.header.version,
                    block_number: m.header.block_number,
                    round: m.header.round,
                    timestamp: m.header.timestamp,
                    parent_hash: m.header.parent_hash,
                    parent_election_hash: m.header.parent_election_hash,
                    seed: m.header.seed,
                    extra_data: copy_bytes(&m.header.extra_data),
                    state_root: m.header.state_root,
                    body_root: m.header.body_root,
                    history_root: m.header.history_root,
                },
                body: m.body.clone(),
            },
        ),
    }
}

/// Signing key bytes a validator announced in an election block gets in the
/// validator set: its own 48 bytes, or 48 zero bytes when it has not 48.
pub open spec fn set_key_bytes(b: Seq<u8>) -> Seq<u8> {
    if b.len() == 48 {
        b
    } else {
        Seq::new(48, |i: int| 0u8)
    }
}

/// Validator set entry of a validator announced in an election block: its
/// address and key, voting power 1, operator `default`, joined at height 0.
pub open spec fn elected(v: crate::blockchain::block::ValidatorInfo) -> (Seq<u8>, Seq<u8>, u64, Seq<char>, u32) {
    (v.address@, set_key_bytes(v.signing_key@), 1, "default"@, 0)
}

/// Validator set entries of the validators announced in an election block.
pub open spec fn elected_all(vs: Seq<crate::blockchain::block::ValidatorInfo>) -> Seq<
    (Seq<u8>, Seq<u8>, u64, Seq<char>, u32),
> {
    vs.map_values(|v: crate::blockchain::block::ValidatorInfo| elected(v))
}

/// Whether a macro block numbered `n` closes an election: every epoch's
/// worth of batches (256 blocks).
pub open spec fn is_election_number(n: u32) -> bool {
    n % 256 == 0
}

/// Validator set entries of validators announced in an election block.
fn convert_validators(vs: &Vec<crate::blockchain::block::ValidatorInfo>) -> (r: Vec<ValidatorInfo>)
    ensures
        infos_view(r@) == elected_all(vs@),
{
    let mut r: Vec<ValidatorInfo> = Vec::new();
    let mut i: usize = 0;
    while i < vs.len()
        invariant
            0 <= i <= vs@.len(),
            infos_view(r@) == elected_all(vs@.take(i as int)),
        decreases vs@.len() - i,
    {
        let v = &vs[i];
        let signing_key = match PublicKey::from_bytes(v.signing_key.as_slice()) {
            Ok(k) => k,
            Err(_) => {
                let mut z: Vec<u8> = Vec::new();
                let mut j: usize = 0;
                while j < 48
                    invariant
                        0 <= j <= 48,
                        z@ == Seq::new(j as nat, |k: int| 0u8),
                    decreases 48 - j,
                {
                    z.push(0u8);
                    j = j + 1;
                    assert(z@ =~= Seq::new(j as nat, |k: int| 0u8));
                }
                match PublicKey::from_bytes(z.as_slice()) {
                    Ok(k) => k,
                    Err(_) => {
                        assert(false);
                        return r;
                    },
                }
            },
        };
        assert(signing_key.bytes() =~= set_key_bytes(v.signing_key@));
        let ghost before = r@;
        r.push(
            ValidatorInfo {
                validator_address: v.address,
                signing_key,
                voting_power: 1,
                network_operator: "default".to_string(),
                joined_at_height: 0,
            },
        );
        proof {
            assert(vs@.take(i + 1) =~= vs@.take(i as int).push(vs@[i as int]));
            assert(infos_view(r@) =~= infos_view(before).push(elected(vs@[i as int])));
        }
        i = i + 1;
        assert(infos_view(r@) =~= elected_all(vs@.take(i as int)));
    }
    assert(vs@.take(vs@.len() as int) =~= vs@);
    r
}

/// The chain of the consortium as a node holds it.
pub struct SPCDRBlockchain<S: ChainStore> {
    chain_store: S,
    validator_set: ValidatorSet,
    head_block: Block,
    macro_head: Block,
    election_head: Block,
    network_id: NetworkId,
}

/// Whether a block is the consortium's genesis: macro block 0 of round 0 at
/// time 0, every hash zero and the genesis text as extra data.
pub open spec fn is_genesis(b: Block) -> bool {
    b matches Block::Macro(m) && {
        &&& m.header.network@ == NetworkIdView::SPConsortium
        &&& m.header.version == 1
        &&& m.header.block_number == 0
        &&& m.header.round == 0
        &&& m.header.timestamp == 0
        &&& m.header.parent_hash@ == crate::primitives::primitives::zero_bytes()
        &&& m.header.extra_data@ == vstd::utf8::encode_utf8("SP CDR Reconciliation Genesis"@)
        &&& m.body.validators is None
        &&& m.body.transactions@.len() == 0
    }
}

impl<S: ChainStore> SPCDRBlockchain<S> {
    /// Block at the head of the chain.
    pub closed spec fn head_view(&self) -> Block {
        self.head_block
    }

    /// Last macro block.
    pub closed spec fn macro_head_view(&self) -> Block {
        self.macro_head
    }

    /// Last election block.
    pub closed spec fn election_head_view(&self) -> Block {
        self.election_head
    }

    /// The validator set.
    pub closed spec fn validators(&self) -> ValidatorSet {
        self.validator_set
    }

    /// The network the chain belongs to.
    pub closed spec fn network(&self) -> NetworkIdView {
        self.network_id@
    }
}

/// The consortium's genesis block.
fn genesis_block() -> (b: Block)
    ensures
        is_genesis(b),
{
    let zero = Blake2bHash::zero();
    let extra_data = crate::primitives::text::text_bytes(&"SP CDR Reconciliation Genesis".to_string());
    Block::Macro(
        MacroBlock {
            header: MacroHeader {
                network: NetworkId::SPConsortium,
                version: 1,
                block_number: 0,
                round: 0,
                timestamp: 0,
                parent_hash: zero,
                parent_election_hash: zero,
                seed: zero,
                extra_data,
                state_root: zero,
                body_root: zero,
                history_root: zero,
            },
            body: MacroBody { validators: None, lost_reward_set: Vec::new(), disabled_set: Vec::new(), transactions: Vec::new() },
        },
    )
}

impl<S: ChainStore> SPCDRBlockchain<S> {
    /// A chain over a store, with the initial validators, every head at the
    /// genesis block.
    pub fn new(chain_store: S, initial_validators: Vec<ValidatorInfo>) -> (c: Self)
        ensures
            is_genesis(c.head_view()),
            is_genesis(c.macro_head_view()),
            is_genesis(c.election_head_view()),
            c.validators().current() == infos_view(initial_validators@),
            c.validators().next() == infos_view(initial_validators@),
            c.network() == NetworkIdView::SPConsortium,
    {
        let validator_set = ValidatorSet::new(initial_validators);
        SPCDRBlockchain {
            chain_store,
            validator_set,
            head_block: genesis_block(),
            macro_head: genesis_block(),
            election_head: genesis_block(),
            network_id: NetworkId::SPConsortium,
        }
    }

    /// Stores a block and moves the heads on: every block becomes the
    /// head; a macro block also the macro head; a macro block numbered at an
    /// election also the election head, and the validators it announces are
    /// elected and take office. `encoding` is the block's serialized form,
    /// whose digest the store records as the head.
    pub fn push_block(&mut self, block: Block, encoding: &[u8]) -> (r: Result<()>)
        ensures
            final(self).network() == old(self).network(),
            r is Ok ==> final(self).head_view() == block,
            r is Ok ==> match block {
                Block::Micro(_) => {
                    &&& final(self).macro_head_view() == old(self).macro_head_view()
                    &&& final(self).election_head_view() == old(self).election_head_view()
                    &&& final(self).validators() == old(self).validators()
                },
                Block::Macro(m) => {
                    &&& same_header(final(self).macro_head_view(), block)
                    &&& !is_election_number(m.header.block_number) ==> final(self).election_head_view() == old(
                        self,
                    ).election_head_view() && final(self).validators() == old(self).validators()
                    &&& is_election_number(m.header.block_number) ==> same_header(final(self).election_head_view(), block)
                    &&& is_election_number(m.header.block_number) && m.body.validators is None ==> final(self).validators()
                        == old(self).validators()
                    &&& is_election_number(m.header.block_number) && m.body.validators is Some ==> {
                        &&& final(self).validators().next() == elected_all(m.body.validators->Some_0@)
                        &&& final(self).validators().current() == elected_all(m.body.validators->Some_0@)
                    }
                },
            },
    {
        self.chain_store.put_block(&block)?;
        let block_hash = hash_data(encoding);
        match &block {
            Block::Micro(_) => {
                self.head_block = block;
                self.chain_store.set_head(&block_hash)?;
            },
            Block::Macro(macro_block) => {
                let number = macro_block.header.block_number;
                let election = number % (crate::primitives::primitives::Policy::EPOCH_LENGTH
                    * crate::primitives::primitives::Policy::BATCH_LENGTH) == 0;
                let elected_validators = match &macro_block.body.validators {
                    Some(vs) => Some(convert_validators(vs)),
                    None => None,
                };
                let macro_copy = copy_block(&block);
                let election_copy = copy_block(&block);
                self.head_block = block;
                self.macro_head = macro_copy;
                self.chain_store.set_head(&block_hash)?;
                self.chain_store.set_macro_head(&block_hash)?;
                if election {
                    self.election_head = election_copy;
                    self.chain_store.set_election_head(&block_hash)?;
                    match elected_validators {
                        Some(vs) => {
                            self.validator_set.update_validators(vs);
                            self.validator_set.finalize_epoch();
                        },
                        None => {},
                    }
                }
            },
        }
        Ok(())
    }
}

impl<S: ChainStore> SPCDRBlockchain<S> {
    /// The network the chain belongs to: the consortium's.
    pub fn network_id(&self) -> (n: NetworkId)
        ensures
            n@ == self.network(),
    {
        self.network_id.copy_id()
    }

    /// Seconds since the Unix epoch on the system clock.
    pub fn now(&self) -> u64 {
        unix_now()
    }

    /// Number of the head block; not tracked yet, so always 0.
    pub fn block_number(&self) -> (n: u32)
        ensures
            n == 0,
    {
        0
    }

    /// Number of the last macro block; not tracked yet, so always 0.
    pub fn macro_block_number(&self) -> (n: u32)
        ensures
            n == 0,
    {
        0
    }

    /// Number of the last election block; not tracked yet, so always 0.
    pub fn election_block_number(&self) -> (n: u32)
        ensures
            n == 0,
    {
        0
    }

    /// The stored block with a hash, as the store answers.
    pub fn get_block(&self, hash: &Blake2bHash, include_body: bool) -> (r: Result<Option<Block>>) {
        self.chain_store.get_block(hash)
    }

    /// Heads and work of the chain; not tracked yet, so all zero.
    pub fn get_chain_info(&self) -> (c: ChainInfo)
        ensures
            c.head_hash@ == crate::primitives::primitives::zero_bytes(),
            c.head_block_number == 0,
            c.macro_head_hash@ == crate::primitives::primitives::zero_bytes(),
            c.macro_head_block_number == 0,
            c.election_head_hash@ == crate::primitives::primitives::zero_bytes(),
            c.election_head_block_number == 0,
            c.total_work == 0,
    {
        ChainInfo {
            head_hash: Blake2bHash::zero(),
            head_block_number: 0,
            macro_head_hash: Blake2bHash::zero(),
            macro_head_block_number: 0,
            election_head_hash: Blake2bHash::zero(),
            election_head_block_number: 0,
            total_work: 0,
        }
    }

    /// A copy of the head block.
    pub fn head_async(&self) -> (b: Block)
        ensures
            same_header(b, self.head_view()),
    {
        copy_block(&self.head_block)
    }

    /// A copy of the last macro block.
    pub fn macro_head_async(&self) -> (b: Block)
        ensures
            same_header(b, self.macro_head_view()),
    {
        copy_block(&self.macro_head)
    }

    /// A copy of the last election block.
    pub fn election_head_async(&self) -> (b: Block)
        ensures
            same_header(b, self.election_head_view()),
    {
        copy_block(&self.election_head)
    }
}

} // verus!
