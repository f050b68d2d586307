use sp_cdr_reconciliation_bc::blockchain::block::{
    Block, CDRTransaction, CDRType, MacroBlock, MacroBody, MacroHeader, MicroBlock, MicroBody, MicroHeader,
    SettlementTransaction, Transaction, TransactionData, ValidatorAction, ValidatorInfo, ValidatorTransaction,
};
use sp_cdr_reconciliation_bc::primitives::primitives::{hash_data, Blake2bHash, NetworkId, Policy};

fn micro(number: u32, parent: [u8; 32], seed: [u8; 32], extra: &[u8]) -> Block {
    Block::Micro(MicroBlock {
        header: MicroHeader {
            network: NetworkId::SPConsortium,
            version: 1,
            block_number: number,
            timestamp: 1234567890,
            parent_hash: Blake2bHash::from_bytes(parent),
            seed: Blake2bHash::from_bytes(seed),
            extra_data: extra.to_vec(),
            state_root: Blake2bHash::zero(),
            body_root: Blake2bHash::zero(),
            history_root: Blake2bHash::zero(),
        },
        body: MicroBody { transactions: vec![] },
    })
}

#[test]
fn test_block_creation_and_hashing() {
    let micro_block = micro(42, [0u8; 32], [1u8; 32], b"test_data");

    assert_eq!(micro_block.block_number(), 42);
    assert_eq!(micro_block.timestamp(), 1234567890);
}

#[test]
fn test_macro_block_validator_updates() {
    let validators = vec![ValidatorInfo {
        address: Blake2bHash::from_bytes([1u8; 32]),
        signing_key: vec![1u8; 48],
        voting_key: vec![1u8; 32],
        reward_address: Blake2bHash::from_bytes([2u8; 32]),
        signal_data: Some(b"validator_signal".to_vec()),
        inactive_from: None,
        jailed_from: None,
    }];

    let macro_block = Block::Macro(MacroBlock {
        header: MacroHeader {
            network: NetworkId::SPConsortium,
            version: 1,
            block_number: 256,
            round: 0,
            timestamp: 1234567890,
            parent_hash: Blake2bHash::from_bytes([255u8; 32]),
            parent_election_hash: Blake2bHash::from_bytes([224u8; 32]),
            seed: Blake2bHash::from_bytes([42u8; 32]),
            extra_data: vec![],
            state_root: Blake2bHash::zero(),
            body_root: Blake2bHash::zero(),
            history_root: Blake2bHash::zero(),
        },
        body: MacroBody {
            validators: Some(validators.clone()),
            lost_reward_set: vec![],
            disabled_set: vec![],
            transactions: vec![],
        },
    });

    if let Block::Macro(ref block) = macro_block {
        assert!(block.body.validators.is_some());
        assert_eq!(block.body.validators.as_ref().unwrap().len(), 1);
        assert_eq!(block.header.block_number, 256);
    } else {
        panic!("Expected macro block");
    }
}

#[test]
fn test_transaction_types() {
    let cdr_tx = Transaction {
        sender: Blake2bHash::from_bytes([10u8; 32]),
        recipient: Blake2bHash::from_bytes([20u8; 32]),
        value: 0,
        fee: 10,
        validity_start_height: 100,
        data: TransactionData::CDRRecord(CDRTransaction {
            record_type: CDRType::DataSession,
            home_network: "T-Mobile-DE".to_string(),
            visited_network: "Vodafone-UK".to_string(),
            encrypted_data: b"encrypted_session_data".to_vec(),
            zk_proof: b"zk_privacy_proof".to_vec(),
        }),
        signature: b"cdr_signature".to_vec(),
        signature_proof: b"cdr_proof".to_vec(),
    };

    let settlement_tx = Transaction {
        sender: Blake2bHash::from_bytes([30u8; 32]),
        recipient: Blake2bHash::from_bytes([40u8; 32]),
        value: 0,
        fee: 5,
        validity_start_height: 200,
        data: TransactionData::Settlement(SettlementTransaction {
            creditor_network: "Vodafone-UK".to_string(),
            debtor_network: "T-Mobile-DE".to_string(),
            amount: 125000,
            currency: "EUR".to_string(),
            period: "2024-01-15-daily".to_string(),
        }),
        signature: b"settlement_signature".to_vec(),
        signature_proof: b"settlement_proof".to_vec(),
    };

    let validator_tx = Transaction {
        sender: Blake2bHash::from_bytes([50u8; 32]),
        recipient: Blake2bHash::from_bytes([60u8; 32]),
        value: 1000000,
        fee: 100,
        validity_start_height: 300,
        data: TransactionData::ValidatorUpdate(ValidatorTransaction {
            action: ValidatorAction::CreateValidator,
            validator_address: Blake2bHash::from_bytes([70u8; 32]),
            stake: 1000000,
        }),
        signature: b"validator_signature".to_vec(),
        signature_proof: b"validator_proof".to_vec(),
    };

    assert!(cdr_tx.is_valid());
    assert!(settlement_tx.is_valid());
    assert!(validator_tx.is_valid());

    if let TransactionData::CDRRecord(ref cdr) = cdr_tx.data {
        assert_eq!(cdr.record_type, CDRType::DataSession);
        assert_eq!(cdr.home_network, "T-Mobile-DE");
        assert_eq!(cdr.visited_network, "Vodafone-UK");
    } else {
        panic!("Expected CDR transaction");
    }

    if let TransactionData::Settlement(ref settlement) = settlement_tx.data {
        assert_eq!(settlement.amount, 125000);
        assert_eq!(settlement.currency, "EUR");
    } else {
        panic!("Expected settlement transaction");
    }

    if let TransactionData::ValidatorUpdate(ref validator) = validator_tx.data {
        assert_eq!(validator.action, ValidatorAction::CreateValidator);
        assert_eq!(validator.stake, 1000000);
    } else {
        panic!("Expected validator transaction");
    }
}

#[test]
fn test_block_validation_rules() {
    let valid_micro = micro(10, [9u8; 32], [10u8; 32], b"");

    let valid_macro = Block::Macro(MacroBlock {
        header: MacroHeader {
            network: NetworkId::SPConsortium,
            version: 1,
            block_number: 32,
            round: 0,
            timestamp: 1234567890,
            parent_hash: Blake2bHash::from_bytes([31u8; 32]),
            parent_election_hash: Blake2bHash::from_bytes([0u8; 32]),
            seed: Blake2bHash::from_bytes([32u8; 32]),
            extra_data: vec![],
            state_root: Blake2bHash::zero(),
            body_root: Blake2bHash::zero(),
            history_root: Blake2bHash::zero(),
        },
        body: MacroBody { validators: None, lost_reward_set: vec![], disabled_set: vec![], transactions: vec![] },
    });

    assert_eq!(valid_micro.block_number(), 10);
    assert_eq!(valid_macro.block_number(), 32);
    assert!(valid_macro.block_number() % Policy::EPOCH_LENGTH == 0);
}

#[test]
fn test_network_id_consistency() {
    let micro_block = micro(1, [0u8; 32], [1u8; 32], b"");

    if let Block::Micro(ref block) = micro_block {
        assert_eq!(block.header.network, NetworkId::SPConsortium);
    }
}

#[test]
fn test_policy_constants() {
    assert_eq!(Policy::EPOCH_LENGTH, 32);
    assert_eq!(Policy::BATCH_LENGTH, 8);
    assert_eq!(Policy::GENESIS_BLOCK_NUMBER, 0);
    assert_eq!(Policy::BLOCK_TIME, 1000);

    let election_block_interval = Policy::EPOCH_LENGTH * Policy::BATCH_LENGTH;
    assert_eq!(election_block_interval, 256);
}

#[test]
fn test_hash_functions() {
    let hash1 = hash_data(b"test_data");
    let hash2 = hash_data(b"test_data");
    let hash3 = hash_data(b"different_data");

    assert_eq!(hash1, hash2);
    assert_ne!(hash1, hash3);
}

#[test]
fn unsigned_or_free_transactions_are_invalid() {
    let tx = Transaction {
        sender: Blake2bHash::zero(),
        recipient: Blake2bHash::zero(),
        value: 0,
        fee: 0,
        validity_start_height: 0,
        data: TransactionData::Basic,
        signature: vec![1],
        signature_proof: vec![],
    };
    assert!(!tx.is_valid());
}

#[test]
fn test_transaction_block_integration() {
    let cdr_tx = Transaction {
        sender: Blake2bHash::from_bytes([10u8; 32]),
        recipient: Blake2bHash::from_bytes([20u8; 32]),
        value: 1000,
        fee: 10,
        validity_start_height: 0,
        data: TransactionData::CDRRecord(CDRTransaction {
            record_type: CDRType::VoiceCall,
            home_network: "SP_A".to_string(),
            visited_network: "SP_B".to_string(),
            encrypted_data: b"encrypted_cdr_data".to_vec(),
            zk_proof: b"zk_proof_bytes".to_vec(),
        }),
        signature: b"signature".to_vec(),
        signature_proof: b"sig_proof".to_vec(),
    };

    let micro_block = Block::Micro(MicroBlock {
        header: MicroHeader {
            network: NetworkId::SPConsortium,
            version: 1,
            block_number: 1,
            timestamp: 1234567890,
            parent_hash: Blake2bHash::zero(),
            seed: Blake2bHash::from_bytes([3u8; 32]),
            extra_data: vec![],
            state_root: Blake2bHash::zero(),
            body_root: Blake2bHash::zero(),
            history_root: Blake2bHash::zero(),
        },
        body: MicroBody { transactions: vec![cdr_tx.clone()] },
    });

    assert!(cdr_tx.is_valid());
    assert_eq!(micro_block.block_number(), 1);

    if let Block::Micro(ref block) = micro_block {
        assert_eq!(block.body.transactions.len(), 1);
        assert_eq!(block.body.transactions[0].value, 1000);
    }
}

#[test]
fn test_cdr_settlement_integration() {
    let settlement_tx = Transaction {
        sender: Blake2bHash::from_bytes([30u8; 32]),
        recipient: Blake2bHash::from_bytes([40u8; 32]),
        value: 0,
        fee: 5,
        validity_start_height: 0,
        data: TransactionData::Settlement(SettlementTransaction {
            creditor_network: "SP_B".to_string(),
            debtor_network: "SP_A".to_string(),
            amount: 50000,
            currency: "EUR".to_string(),
            period: "2024-01-daily".to_string(),
        }),
        signature: b"settlement_signature".to_vec(),
        signature_proof: b"settlement_proof".to_vec(),
    };

    let macro_block = Block::Macro(MacroBlock {
        header: MacroHeader {
            network: NetworkId::SPConsortium,
            version: 1,
            block_number: 32,
            round: 0,
            timestamp: 1234567890,
            parent_hash: Blake2bHash::from_bytes([31u8; 32]),
            parent_election_hash: Blake2bHash::zero(),
            seed: Blake2bHash::from_bytes([32u8; 32]),
            extra_data: vec![],
            state_root: Blake2bHash::zero(),
            body_root: Blake2bHash::zero(),
            history_root: Blake2bHash::zero(),
        },
        body: MacroBody { validators: None, lost_reward_set: vec![], disabled_set: vec![], transactions: vec![settlement_tx.clone()] },
    });

    assert!(settlement_tx.is_valid());

    if let Block::Macro(ref block) = macro_block {
        if let TransactionData::Settlement(ref settlement) = block.body.transactions[0].data {
            assert_eq!(settlement.amount, 50000);
            assert_eq!(settlement.currency, "EUR");
            assert_eq!(settlement.creditor_network, "SP_B");
            assert_eq!(settlement.debtor_network, "SP_A");
        }
    }
}
