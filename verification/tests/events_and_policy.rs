use sp_cdr_reconciliation_bc::primitives::error::{BlockchainEvent, ConsensusEvent};
use sp_cdr_reconciliation_bc::primitives::primitives::{hash_data, Blake2bHash, Policy};
use std::time::Instant;

#[test]
fn test_consensus_event_types() {
    let established = ConsensusEvent::Established { synced_validity_window: true };
    let lost = ConsensusEvent::Lost;
    let waiting = ConsensusEvent::Waiting;

    let _established_clone = established.clone();
    let _lost_clone = lost.clone();
    let _waiting_clone = waiting.clone();

    println!("Events: {:?}, {:?}, {:?}", established, lost, waiting);
}

#[test]
fn test_blockchain_event_types() {
    let extended = BlockchainEvent::Extended(Blake2bHash::from_bytes([1u8; 32]));
    let reverted = BlockchainEvent::Reverted(Blake2bHash::from_bytes([2u8; 32]));
    let rebranched = BlockchainEvent::Rebranched {
        old_blocks: vec![Blake2bHash::from_bytes([3u8; 32])],
        new_blocks: vec![Blake2bHash::from_bytes([4u8; 32]), Blake2bHash::from_bytes([5u8; 32])],
    };
    let finalized = BlockchainEvent::Finalized(Blake2bHash::from_bytes([6u8; 32]));

    let _extended_clone = extended.clone();
    let _reverted_clone = reverted.clone();
    let _rebranched_clone = rebranched.clone();
    let _finalized_clone = finalized.clone();
}

#[test]
fn test_hash_performance() {
    let num_operations = 10000;
    let start_time = Instant::now();
    for i in 0..num_operations {
        let data = format!("performance_test_data_{}", i);
        let _hash = hash_data(data.as_bytes());
    }
    let hash_duration = start_time.elapsed();
    println!("Performed {} hash operations in {:?}", num_operations, hash_duration);
}

#[test]
fn test_policy_compliance_performance() {
    for block_number in 1..100000u32 {
        let is_epoch_boundary = block_number % Policy::EPOCH_LENGTH == 0;
        let is_batch_boundary = block_number % Policy::BATCH_LENGTH == 0;
        let is_election_block = block_number % (Policy::EPOCH_LENGTH * Policy::BATCH_LENGTH) == 0;

        if is_election_block {
            assert!(is_epoch_boundary);
            assert!(is_batch_boundary);
        }
    }
}
