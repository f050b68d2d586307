use sp_cdr_reconciliation_bc::crypto::keys::KeyPair;
use sp_cdr_reconciliation_bc::crypto::signatures::{
    MultiSignature, NetworkSignature, SettlementSignature, SignatureManager, ThresholdConfig,
};

#[test]
fn test_threshold_config() {
    let config = ThresholdConfig::new(3, 5).unwrap();
    assert_eq!(config.threshold, 3);
    assert_eq!(config.total_signers, 5);
    assert_eq!((config.threshold as f64 / config.total_signers as f64) * 100.0, 60.0);

    assert!(!config.meets_threshold(2));
    assert!(config.meets_threshold(3));
    assert!(config.meets_threshold(4));

    assert!(ThresholdConfig::new(0, 5).is_err());
    assert!(ThresholdConfig::new(6, 5).is_err());
}

#[test]
fn test_multi_signature_creation() {
    let message = b"SP CDR multi-signature test";

    let keypair1 = KeyPair::generate().unwrap();
    let keypair2 = KeyPair::generate().unwrap();
    let keypair3 = KeyPair::generate().unwrap();

    let sig1 = keypair1.sign(message).unwrap();
    let sig2 = keypair2.sign(message).unwrap();
    let sig3 = keypair3.sign(message).unwrap();

    let signatures = vec![(0, sig1), (1, sig2), (2, sig3)];
    let multisig = MultiSignature::create(&signatures, message, 5).unwrap();

    assert_eq!(multisig.signer_count, 3);
    assert!(multisig.is_signer(0));
    assert!(multisig.is_signer(1));
    assert!(multisig.is_signer(2));
    assert!(!multisig.is_signer(3));
    assert!(!multisig.is_signer(4));

    let signers = multisig.get_signers();
    assert_eq!(signers, vec![0, 1, 2]);
}

#[test]
fn test_multi_signature_verification() {
    let message = b"SP CDR verification test";

    let keypairs: Vec<_> = (0..5).map(|_| KeyPair::generate().unwrap()).collect();
    let public_keys: Vec<_> = keypairs.iter().map(|kp| kp.public_key.clone()).collect();

    let signatures: Vec<_> = keypairs[0..3].iter().enumerate().map(|(i, kp)| (i, kp.sign(message).unwrap())).collect();

    let multisig = MultiSignature::create(&signatures, message, 5).unwrap();

    let threshold_config = ThresholdConfig::new(3, 5).unwrap();

    assert!(multisig.verify(&public_keys, message, &threshold_config).unwrap());
    assert!(!multisig.verify(&public_keys, b"wrong message", &threshold_config).unwrap());

    let strict_threshold = ThresholdConfig::new(4, 5).unwrap();
    assert!(!multisig.verify(&public_keys, message, &strict_threshold).unwrap());
}

#[test]
fn test_network_signature() {
    let keypair = KeyPair::generate().unwrap();
    let message = b"CDR transaction data";
    let signature = keypair.sign(message).unwrap();

    let network_sig = NetworkSignature::create("T-Mobile-DE".to_string(), signature, keypair.public_key.clone());

    assert_eq!(network_sig.network_id, "T-Mobile-DE");
    assert!(network_sig.verify(message));
    assert!(!network_sig.verify(b"different message"));
    assert!(network_sig.is_within_time_window(3600));
}

#[test]
fn test_settlement_signature() {
    let creditor_keypair = KeyPair::generate().unwrap();
    let debtor_keypair = KeyPair::generate().unwrap();
    let settlement_message = b"settlement_data_123";

    let creditor_sig = NetworkSignature::create(
        "Vodafone-UK".to_string(),
        creditor_keypair.sign(settlement_message).unwrap(),
        creditor_keypair.public_key.clone(),
    );

    let debtor_sig = NetworkSignature::create(
        "T-Mobile-DE".to_string(),
        debtor_keypair.sign(settlement_message).unwrap(),
        debtor_keypair.public_key.clone(),
    );

    let settlement = SettlementSignature::create(creditor_sig, debtor_sig, 125000, "2024-01-15-daily".to_string()).unwrap();

    assert_eq!(settlement.creditor_signature.network_id, "Vodafone-UK");
    assert_eq!(settlement.debtor_signature.network_id, "T-Mobile-DE");
    assert_eq!(settlement.settlement_amount, 125000);
    assert!(settlement.verify(settlement_message));
    assert!(settlement.verify_settlement_integrity());
}

#[test]
fn test_signature_manager() {
    let mut sig_manager = SignatureManager::new();
    let message = b"consensus message";

    let threshold_config = ThresholdConfig::new(2, 3).unwrap();
    sig_manager.set_threshold_config("consensus".to_string(), threshold_config);

    let keypair1 = KeyPair::generate().unwrap();
    let keypair2 = KeyPair::generate().unwrap();

    let sig1 = keypair1.sign(message).unwrap();
    let sig2 = keypair2.sign(message).unwrap();

    sig_manager.add_signature(message, 0, sig1).unwrap();
    assert_eq!(sig_manager.get_signature_count(message), 1);

    let multisig = sig_manager.try_create_multisig(message, "consensus", 3).unwrap();
    assert!(multisig.is_none());

    sig_manager.add_signature(message, 1, sig2).unwrap();
    assert_eq!(sig_manager.get_signature_count(message), 2);

    let multisig = sig_manager.try_create_multisig(message, "consensus", 3).unwrap();
    assert!(multisig.is_some());

    assert_eq!(sig_manager.get_signature_count(message), 0);
}
