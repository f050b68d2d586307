use sp_cdr_reconciliation_bc::blockchain::validator_set::ValidatorInfo;
use sp_cdr_reconciliation_bc::common::consensus::{TendermintIdentifier, TendermintStep, TendermintVote, ValidatorSet};
use sp_cdr_reconciliation_bc::crypto::PublicKey;
use sp_cdr_reconciliation_bc::primitives::primitives::Blake2bHash;

fn validator(n: u8) -> ValidatorInfo {
    ValidatorInfo {
        validator_address: Blake2bHash::from_bytes([n; 32]),
        signing_key: PublicKey::from_bytes(&[n; 48]).unwrap(),
        voting_power: 1,
        network_operator: format!("operator-{}", n),
        joined_at_height: 0,
    }
}

#[test]
fn test_validator_set_management() {
    let validators = vec![validator(1), validator(2), validator(3)];

    let mut validator_set = ValidatorSet::new(validators.clone());

    assert_eq!(validator_set.current_validators().len(), 3);
    assert_eq!(validator_set.next_validators().len(), 3);

    let updated_validators = vec![validators[0].clone(), validators[1].clone()];
    validator_set.update_validators(updated_validators.clone());

    assert_eq!(validator_set.current_validators().len(), 3);
    assert_eq!(validator_set.next_validators().len(), 2);

    validator_set.finalize_epoch();
    assert_eq!(validator_set.current_validators().len(), 2);
    assert_eq!(validator_set.next_validators().len(), 2);
}

#[test]
fn test_tendermint_vote_structure() {
    let vote = TendermintVote {
        proposal_hash: Some(Blake2bHash::from_bytes([42u8; 32])),
        round: 0,
        step: TendermintStep::Prevote,
        validator_idx: 0,
        signature: b"bls_aggregated_signature".to_vec(),
    };
    assert_eq!(vote.proposal_hash, Some(Blake2bHash::from_bytes([42u8; 32])));
    assert_eq!(vote.step, TendermintStep::Prevote);

    let nil_vote = TendermintVote {
        proposal_hash: None,
        round: 1,
        step: TendermintStep::Precommit,
        validator_idx: 1,
        signature: b"nil_vote_signature".to_vec(),
    };

    assert!(nil_vote.proposal_hash.is_none());
}

#[test]
fn test_tendermint_identifier() {
    let identifier = TendermintIdentifier { network: 1, block_number: 32, round_number: 0, step: TendermintStep::Propose };
    let identifier2 = TendermintIdentifier { network: 1, block_number: 32, round_number: 1, step: TendermintStep::Propose };
    assert_ne!(identifier.round_number, identifier2.round_number);

    assert_eq!(TendermintStep::Propose.code(), 1);
    assert_eq!(TendermintStep::Prevote.code(), 2);
    assert_eq!(TendermintStep::Precommit.code(), 3);
}

#[test]
fn test_validator_consensus_integration() {
    let validators = vec![validator(1), validator(2)];
    let mut validator_set = ValidatorSet::new(validators.clone());

    assert_eq!(validator_set.current_validators().len(), 2);

    let new_validators = vec![validators[0].clone()];
    validator_set.update_validators(new_validators);
    validator_set.finalize_epoch();

    assert_eq!(validator_set.current_validators().len(), 1);
}
