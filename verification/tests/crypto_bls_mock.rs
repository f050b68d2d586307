use sp_cdr_reconciliation_bc::crypto::bls_mock::{AggregatePublicKey, AggregateSignature, PrivateKey, PublicKey};
use sp_cdr_reconciliation_bc::crypto::CryptoError;
use sp_cdr_reconciliation_bc::primitives::primitives::hash_data;

#[test]
fn bls_mock_test_key_generation() {
    let private_key = PrivateKey::generate().unwrap();
    let public_key = private_key.public_key().unwrap();

    assert_eq!(private_key.as_bytes().len(), 32);
    assert_eq!(public_key.as_bytes().len(), 48);
}

#[test]
fn test_signature_creation_and_verification() {
    let private_key = PrivateKey::generate().unwrap();
    let public_key = private_key.public_key().unwrap();

    let message = b"SP CDR reconciliation test message";
    let message_hash = hash_data(message);

    let signature = private_key.sign(&message_hash).unwrap();
    assert!(public_key.verify(&signature, &message_hash));

    let wrong_hash = hash_data(b"different message");
    assert!(!public_key.verify(&signature, &wrong_hash));
}

#[test]
fn test_key_serialization() {
    let private_key = PrivateKey::generate().unwrap();
    let public_key = private_key.public_key().unwrap();

    let private_bytes = private_key.as_bytes();
    let restored_private = PrivateKey::from_bytes(private_bytes).unwrap();
    assert_eq!(private_key.as_bytes(), restored_private.as_bytes());

    let public_bytes = public_key.as_bytes();
    let restored_public = PublicKey::from_bytes(public_bytes).unwrap();
    assert_eq!(public_key.as_bytes(), restored_public.as_bytes());
}

#[test]
fn test_signature_aggregation() {
    let private_key1 = PrivateKey::generate().unwrap();
    let private_key2 = PrivateKey::generate().unwrap();

    let public_key1 = private_key1.public_key().unwrap();
    let public_key2 = private_key2.public_key().unwrap();

    let message_hash = hash_data(b"aggregate signature test");

    let signature1 = private_key1.sign(&message_hash).unwrap();
    let signature2 = private_key2.sign(&message_hash).unwrap();

    let agg_signature = AggregateSignature::aggregate(&[signature1, signature2]).unwrap();
    let agg_public_key = AggregatePublicKey::aggregate(&[public_key1, public_key2]).unwrap();

    assert!(agg_public_key.verify(&agg_signature, &message_hash));
}

#[test]
fn test_compressed_keys() {
    let private_key = PrivateKey::generate().unwrap();
    let public_key = private_key.public_key().unwrap();

    let compressed = public_key.compress();
    let decompressed = compressed.decompress().unwrap();

    assert_eq!(public_key.as_bytes(), decompressed.as_bytes());
}

#[test]
fn test_invalid_key_bytes() {
    let result = PrivateKey::from_bytes(&[1, 2, 3]);
    assert!(matches!(result, Err(CryptoError::InvalidPrivateKey)));

    let result = PrivateKey::from_bytes(&[0u8; 32]);
    assert!(matches!(result, Err(CryptoError::InvalidPrivateKey)));

    let result = PublicKey::from_bytes(&[1, 2, 3]);
    assert!(matches!(result, Err(CryptoError::InvalidPublicKey)));
}
