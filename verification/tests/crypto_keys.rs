use sp_cdr_reconciliation_bc::crypto::keys::{KeyManager, KeyPair, NetworkOperatorKey, ValidatorKey};
use sp_cdr_reconciliation_bc::primitives::primitives::{hash_data, Blake2bHash};

#[test]
fn test_keypair_generation() {
    let keypair = KeyPair::generate().unwrap();

    assert_eq!(keypair.private_key.to_bytes().len(), 32);
    assert_eq!(keypair.public_key.as_bytes().len(), 48);
    assert_ne!(keypair.key_id, Blake2bHash::zero());
}

#[test]
fn test_validator_key_lifecycle() {
    let keypair = KeyPair::generate().unwrap();
    let compressed_public = keypair.public_key.compress();
    let voting_key = vec![1u8; 32];

    let mut validator_key = ValidatorKey::new(
        hash_data(b"validator_1"),
        compressed_public,
        voting_key,
        hash_data(b"reward_addr"),
        10,
    )
    .unwrap();

    assert!(!validator_key.is_active_at_epoch(5));
    assert!(validator_key.is_active_at_epoch(10));
    assert!(validator_key.is_active_at_epoch(20));

    validator_key.deactivate_at_epoch(30);

    assert!(validator_key.is_active_at_epoch(25));
    assert!(!validator_key.is_active_at_epoch(30));
    assert!(!validator_key.is_active_at_epoch(35));
}

#[test]
fn test_network_operator_key() {
    let keypair1 = KeyPair::generate().unwrap();
    let keypair2 = KeyPair::generate().unwrap();

    let mut network_key = NetworkOperatorKey::new(
        "T-Mobile-DE".to_string(),
        keypair1.public_key.compress(),
        keypair2.public_key.compress(),
        "DE".to_string(),
    );

    assert!(network_key.is_valid());
    assert_eq!(network_key.network_id, "T-Mobile-DE");
    assert_eq!(network_key.country_code, "DE");

    let past_time = std::time::SystemTime::now().duration_since(std::time::UNIX_EPOCH).unwrap().as_secs() - 3600;

    network_key.set_expiration(past_time);
    assert!(!network_key.is_valid());
}

#[test]
fn test_key_manager() {
    let mut key_manager = KeyManager::new();

    let keypair = KeyPair::generate().unwrap();
    let validator_address = hash_data(b"validator_test");
    let validator_key = ValidatorKey::new(
        validator_address.clone(),
        keypair.public_key.compress(),
        vec![1u8; 32],
        hash_data(b"reward"),
        0,
    )
    .unwrap();

    key_manager.add_validator_key(validator_key);

    let retrieved = key_manager.get_validator_key(&validator_address);
    assert!(retrieved.is_some());
    assert_eq!(retrieved.unwrap().validator_address, validator_address);

    let operator_keypair = KeyPair::generate().unwrap();
    let settlement_keypair = KeyPair::generate().unwrap();
    let network_key = NetworkOperatorKey::new(
        "Vodafone-UK".to_string(),
        operator_keypair.public_key.compress(),
        settlement_keypair.public_key.compress(),
        "GB".to_string(),
    );

    key_manager.add_network_operator_key(network_key);

    let retrieved_network = key_manager.get_network_operator_key("Vodafone-UK");
    assert!(retrieved_network.is_some());
    assert_eq!(retrieved_network.unwrap().country_code, "GB");
}

#[test]
fn test_key_rotation() {
    let mut key_manager = KeyManager::new();

    let keypair1 = KeyPair::generate().unwrap();
    let validator_address = hash_data(b"validator_rotation_test");
    let validator_key1 = ValidatorKey::new(
        validator_address.clone(),
        keypair1.public_key.compress(),
        vec![1u8; 32],
        hash_data(b"reward"),
        0,
    )
    .unwrap();

    key_manager.add_validator_key(validator_key1);
    key_manager.update_epoch(5);

    let active_keys = key_manager.get_active_validator_keys();
    assert_eq!(active_keys.len(), 1);

    let keypair2 = KeyPair::generate().unwrap();
    let validator_key2 = ValidatorKey::new(
        validator_address.clone(),
        keypair2.public_key.compress(),
        vec![2u8; 32],
        hash_data(b"reward"),
        10,
    )
    .unwrap();

    key_manager.rotate_validator_key(&validator_address, validator_key2, 10).unwrap();

    key_manager.update_epoch(9);
    let active_keys = key_manager.get_active_validator_keys();
    assert_eq!(active_keys.len(), 1);

    key_manager.update_epoch(10);
    let active_keys = key_manager.get_active_validator_keys();
    assert_eq!(active_keys.len(), 1);
}

#[test]
fn validator_key_needs_a_32_byte_voting_key() {
    let keypair = KeyPair::generate().unwrap();
    let r = ValidatorKey::new(hash_data(b"v"), keypair.public_key.compress(), vec![1u8; 31], hash_data(b"r"), 0);
    assert!(r.is_err());
}
