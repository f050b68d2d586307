use sp_cdr_reconciliation_bc::crypto::bls::{aggregate_public_keys, aggregate_signatures, BLSPrivateKey, BLSVerifier};

#[test]
fn test_bls_key_generation() {
    let private_key = BLSPrivateKey::generate().unwrap();
    let public_key = private_key.public_key();

    assert_eq!(private_key.to_bytes().len(), 32);
    assert_eq!(public_key.to_bytes().len(), 48);
}

#[test]
fn test_bls_sign_and_verify() {
    let private_key = BLSPrivateKey::generate().unwrap();
    let public_key = private_key.public_key();

    let message = b"SP Consortium Settlement Batch 001";
    let signature = private_key.sign(message).unwrap();

    assert!(signature.verify(&public_key, message).unwrap());

    let wrong_message = b"Different message";
    assert!(!signature.verify(&public_key, wrong_message).unwrap());
}

#[test]
fn test_bls_signature_aggregation() {
    let tmobile_sk = BLSPrivateKey::generate().unwrap();
    let vodafone_sk = BLSPrivateKey::generate().unwrap();
    let orange_sk = BLSPrivateKey::generate().unwrap();

    let tmobile_pk = tmobile_sk.public_key();
    let vodafone_pk = vodafone_sk.public_key();
    let orange_pk = orange_sk.public_key();

    let message = b"Settlement: T-Mobile 1.2M EUR -> Vodafone, Vodafone 800K EUR -> Orange";

    let tmobile_sig = tmobile_sk.sign(message).unwrap();
    let vodafone_sig = vodafone_sk.sign(message).unwrap();
    let orange_sig = orange_sk.sign(message).unwrap();

    let signatures = vec![tmobile_sig, vodafone_sig, orange_sig];
    let aggregate_sig = aggregate_signatures(&signatures).unwrap();

    let public_keys = vec![tmobile_pk, vodafone_pk, orange_pk];
    let aggregate_pk = aggregate_public_keys(&public_keys).unwrap();

    assert!(aggregate_sig.verify(&aggregate_pk, message).unwrap());
    assert!(!aggregate_sig.verify(&aggregate_pk, b"Wrong message").unwrap());
}

#[test]
fn test_sp_consortium_workflow() {
    let mut verifier = BLSVerifier::new();

    let tmobile_sk = BLSPrivateKey::generate().unwrap();
    let vodafone_sk = BLSPrivateKey::generate().unwrap();
    let orange_sk = BLSPrivateKey::generate().unwrap();

    verifier.register_operator("T-Mobile-DE", tmobile_sk.public_key());
    verifier.register_operator("Vodafone-UK", vodafone_sk.public_key());
    verifier.register_operator("Orange-FR", orange_sk.public_key());

    let settlement_data = b"CDR_Settlement_Batch_12345: Total 2.4M EUR cross-network charges";

    let tmobile_sig = tmobile_sk.sign(settlement_data).unwrap();
    let vodafone_sig = vodafone_sk.sign(settlement_data).unwrap();
    let orange_sig = orange_sk.sign(settlement_data).unwrap();

    assert!(verifier.verify_operator_signature("T-Mobile-DE", settlement_data, tmobile_sig.to_bytes()).unwrap());
    assert!(verifier.verify_operator_signature("Vodafone-UK", settlement_data, vodafone_sig.to_bytes()).unwrap());
    assert!(verifier.verify_operator_signature("Orange-FR", settlement_data, orange_sig.to_bytes()).unwrap());

    let signatures = vec![tmobile_sig, vodafone_sig, orange_sig];
    let aggregate_sig = aggregate_signatures(&signatures).unwrap();

    let operators = vec!["T-Mobile-DE".to_string(), "Vodafone-UK".to_string(), "Orange-FR".to_string()];
    assert!(verifier.verify_multi_party_signature(&operators, settlement_data, aggregate_sig.to_bytes()).unwrap());
}

#[test]
fn bls_unknown_operator_is_refused() {
    let verifier = BLSVerifier::new();
    let sk = BLSPrivateKey::generate().unwrap();
    let sig = sk.sign(b"data").unwrap();
    assert!(verifier.verify_operator_signature("Nobody", b"data", sig.to_bytes()).is_err());
}
