//! Consensus-side views of the chain: chain heads, the current and next
//! validator sets, and Tendermint votes.
use vstd::prelude::*;
use crate::blockchain::validator_set::{copy_infos, infos_view, ValidatorInfo};
use crate::primitives::primitives::Blake2bHash;

verus! {

/// Heads of the chain and its total work.
#[derive(Debug, Clone)]
pub struct ChainInfo {
    pub head_hash: Blake2bHash,
    pub head_block_number: u32,
    pub macro_head_hash: Blake2bHash,
    pub macro_head_block_number: u32,
    pub election_head_hash: Blake2bHash,
    pub election_head_block_number: u32,
    pub total_work: u64,
}

/// The validators of the current epoch and those elected for the next.
pub struct ValidatorSet {
    validators: Vec<ValidatorInfo>,
    current_validators: Vec<ValidatorInfo>,
    next_validators: Vec<ValidatorInfo>,
}

impl ValidatorSet {
    /// Validators the set was made with.
    pub closed spec fn initial(&self) -> Seq<(Seq<u8>, Seq<u8>, u64, Seq<char>, u32)> {
        infos_view(self.validators@)
    }

    /// Validators of the current epoch.
    pub closed spec fn current(&self) -> Seq<(Seq<u8>, Seq<u8>, u64, Seq<char>, u32)> {
        infos_view(self.current_validators@)
    }

    /// Validators elected for the next epoch.
    pub closed spec fn next(&self) -> Seq<(Seq<u8>, Seq<u8>, u64, Seq<char>, u32)> {
        infos_view(self.next_validators@)
    }

    /// A set whose current and next validators are both `validators`.
    pub fn new(validators: Vec<ValidatorInfo>) -> (s: Self)
        ensures
            s.initial() == infos_view(validators@),
            s.current() == infos_view(validators@),
            s.next() == infos_view(validators@),
    {
        let current_validators = copy_infos(&validators);
        let next_validators = copy_infos(&validators);
        ValidatorSet { validators, current_validators, next_validators }
    }

    pub fn current_validators(&self) -> (r: &[ValidatorInfo])
        ensures
            infos_view(r@) == self.current(),
    {
        self.current_validators.as_slice()
    }

    pub fn next_validators(&self) -> (r: &[ValidatorInfo])
        ensures
            infos_view(r@) == self.next(),
    {
        self.next_validators.as_slice()
    }

    /// Elects the validators of the next epoch.
    pub fn update_validators(&mut self, validators: Vec<ValidatorInfo>)
        ensures
            final(self).next() == infos_view(validators@),
            final(self).current() == old(self).current(),
            final(self).initial() == old(self).initial(),
    {
        self.next_validators = validators;
    }

    /// Ends the epoch: the elected validators become the current ones.
    pub fn finalize_epoch(&mut self)
        ensures
            final(self).current() == old(self).next(),
            final(self).next() == old(self).next(),
            final(self).initial() == old(self).initial(),
    {
        self.current_validators = copy_infos(&self.next_validators);
    }
}

/// A Tendermint vote on a macro block proposal.
#[derive(Debug, Clone)]
pub struct TendermintVote {
    pub proposal_hash: Option<Blake2bHash>,
    pub round: u32,
    pub step: TendermintStep,
    pub validator_idx: u16,
    pub signature: Vec<u8>,
}

/// Steps of a Tendermint round.
#[derive(Debug, Clone, Copy, PartialEq, Eq, Structural)]
pub enum TendermintStep {
    Propose,
    Prevote,
    Precommit,
}

impl TendermintStep {
    /// Number of the step on the wire: 1 to propose, 2 to prevote, 3 to
    /// precommit.
    pub fn code(&self) -> (c: u8)
        ensures
            c == match self {
                TendermintStep::Propose => 1u8,
                TendermintStep::Prevote => 2u8,
                TendermintStep::Precommit => 3u8,
            },
    {
        match self {
            TendermintStep::Propose => 1,
            TendermintStep::Prevote => 2,
            TendermintStep::Precommit => 3,
        }
    }
}

/// Identifies a step of a Tendermint round.
#[derive(Debug, Clone, Copy)]
pub struct TendermintIdentifier {
    pub network: u8,
    pub block_number: u32,
    pub round_number: u32,
    pub step: TendermintStep,
}

} // verus!
