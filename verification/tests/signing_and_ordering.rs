use sp_cdr_reconciliation_bc::collections::VecMap;
use sp_cdr_reconciliation_bc::crypto::bls::BLSPrivateKey;
use sp_cdr_reconciliation_bc::crypto::bls_mock::PrivateKey as MockKey;
use sp_cdr_reconciliation_bc::crypto::keys::KeyPair;
use sp_cdr_reconciliation_bc::crypto::signatures::MultiSignature;
use sp_cdr_reconciliation_bc::crypto::AggregateSignature;
use sp_cdr_reconciliation_bc::network::consensus_networking::ConsensusNetwork;
use sp_cdr_reconciliation_bc::network::peer_discovery::PeerDiscovery;
use sp_cdr_reconciliation_bc::primitives::primitives::NetworkId;
use sp_cdr_reconciliation_bc::smart_contracts::crypto_verifier::BLSVerifier;
use sp_cdr_reconciliation_bc::smart_contracts::settlement_contract::SettlementContractCompiler;
use sp_cdr_reconciliation_bc::smart_contracts::vm::Instruction;

fn verifier_of(names: &[&str], pairs: &[KeyPair]) -> BLSVerifier {
    let mut v = BLSVerifier::new();
    for (n, kp) in names.iter().zip(pairs.iter()) {
        v.register_operator(n.to_string(), kp.public_key.clone());
    }
    v
}

#[test]
fn key_pair_signature_checks_under_its_own_key() {
    let kp = KeyPair::generate().unwrap();
    let other = KeyPair::generate().unwrap();
    let sig = kp.sign(b"roaming charges").unwrap();
    assert!(kp.verify(&sig, b"roaming charges"));
    assert!(!kp.verify(&sig, b"other charges"));
    assert!(!other.verify(&sig, b"roaming charges"));
    assert_eq!(kp.public_key, kp.private_key.public_key());
}

#[test]
fn multi_signature_counts_each_signer_once() {
    let message = b"duplicate signer";
    let kp0 = KeyPair::generate().unwrap();
    let kp1 = KeyPair::generate().unwrap();
    let s0 = kp0.sign(message).unwrap();
    let s1 = kp1.sign(message).unwrap();
    let sigs = vec![(0, s0.clone()), (0, s0), (1, s1)];
    let ms = MultiSignature::create(&sigs, message, 3).unwrap();
    assert_eq!(ms.signer_count, 2);
    assert_eq!(ms.get_signers(), vec![0, 1]);
}

#[test]
fn threshold_counts_each_listed_network_once() {
    let message = b"settle period 2024-01";
    let pairs = vec![KeyPair::generate().unwrap(), KeyPair::generate().unwrap(), KeyPair::generate().unwrap()];
    let v = verifier_of(&["A", "B", "C"], &pairs);
    let sa = pairs[0].sign(message).unwrap().to_bytes().to_vec();
    let sb = pairs[1].sign(message).unwrap().to_bytes().to_vec();
    let sc = pairs[2].sign(message).unwrap().to_bytes().to_vec();
    let listed = vec!["A".to_string(), "B".to_string()];

    let twice = vec![("A".to_string(), sa.clone()), ("A".to_string(), sa.clone())];
    assert_eq!(v.verify_threshold_signature(&listed, 2, message, &twice).unwrap(), false);

    let unlisted = vec![("A".to_string(), sa.clone()), ("C".to_string(), sc)];
    assert_eq!(v.verify_threshold_signature(&listed, 2, message, &unlisted).unwrap(), false);

    let both = vec![("A".to_string(), sa), ("B".to_string(), sb)];
    assert_eq!(v.verify_threshold_signature(&listed, 2, message, &both).unwrap(), true);
}

#[test]
fn aggregate_signature_checks_the_message() {
    let message = b"netting round 7";
    let pairs = vec![KeyPair::generate().unwrap(), KeyPair::generate().unwrap()];
    let v = verifier_of(&["A", "B"], &pairs);
    let sigs = vec![pairs[0].sign(message).unwrap(), pairs[1].sign(message).unwrap()];
    let agg = AggregateSignature::aggregate(&sigs).unwrap();
    let bytes = agg.signature.to_bytes().to_vec();
    let names = vec!["A".to_string(), "B".to_string()];
    assert!(v.verify_aggregate_signature(&names, message, &bytes).unwrap());
    assert!(!v.verify_aggregate_signature(&names, b"netting round 8", &bytes).unwrap());
    assert!(v.verify_aggregate_signature(&["A".to_string(), "Z".to_string()], message, &bytes).is_err());
}

#[test]
fn program_jumps_land_on_their_blocks() {
    let executor = SettlementContractCompiler::compile_settlement_executor();
    assert!(matches!(executor[4], Instruction::JumpIf(8)));
    assert!(matches!(&executor[8], Instruction::Log(m) if m == "Settlement proof verified"));
    assert!(matches!(executor[24], Instruction::JumpIf(28)));
    assert!(matches!(&executor[28], Instruction::Log(m) if m == "Executing settlement transfer"));

    let validator = SettlementContractCompiler::compile_cdr_batch_validator();
    assert!(matches!(validator[8], Instruction::JumpIf(12)));
    assert!(matches!(&validator[12], Instruction::Log(m) if m == "Privacy proof verified"));
    assert!(matches!(validator[23], Instruction::JumpIf(27)));
    assert!(matches!(&validator[27], Instruction::Log(m) if m == "CDR batch validated successfully"));
}

fn node(local: &str, validators: Vec<String>) -> ConsensusNetwork {
    let mut weights = VecMap::new();
    for v in validators.iter() {
        weights.insert(v.clone(), 100);
    }
    ConsensusNetwork::new(
        NetworkId::new("Test", "Network"),
        local.to_string(),
        validators,
        weights,
        BLSPrivateKey::generate().unwrap(),
        vec![],
    )
}

#[test]
fn validators_in_any_order_agree_on_the_proposer() {
    let a = node("peer-a", vec!["peer-c".to_string(), "peer-a".to_string(), "peer-b".to_string()]);
    let b = node("peer-b", vec!["peer-b".to_string(), "peer-c".to_string(), "peer-a".to_string(), "peer-b".to_string()]);
    assert_eq!(a.get_state().validators, vec!["peer-a", "peer-b", "peer-c"]);
    assert_eq!(b.get_state().validators, vec!["peer-a", "peer-b", "peer-c"]);
    for round in 0..6u64 {
        for p in ["peer-a", "peer-b", "peer-c"] {
            let p = p.to_string();
            assert_eq!(a.is_valid_proposer(&p, round), b.is_valid_proposer(&p, round));
        }
    }
    assert!(a.is_proposer(0));
    assert!(b.is_proposer(1));
    assert!(a.is_valid_proposer(&"peer-c".to_string(), 2));
}

#[test]
fn fresh_keys_come_from_drawn_material() {
    let a = BLSPrivateKey::generate().unwrap();
    let b = BLSPrivateKey::generate().unwrap();
    assert_ne!(a.to_bytes(), b.to_bytes());
    let again = BLSPrivateKey::from_bytes(&[7u8; 32]).unwrap();
    assert_eq!(again.to_bytes(), BLSPrivateKey::from_bytes(&[7u8; 32]).unwrap().to_bytes());
}

#[test]
fn mock_key_keeps_a_nonzero_first_draw() {
    let k = MockKey::from_first_draw([5u8; 32]).unwrap();
    assert_eq!(k.as_bytes(), &[5u8; 32]);
    let redrawn = MockKey::from_first_draw([0u8; 32]).unwrap();
    assert_eq!(redrawn.as_bytes().len(), 32);
    assert!(MockKey::generate().is_ok());
}

#[test]
fn consortium_directory_has_fixed_bootstrap_nodes() {
    let d = PeerDiscovery::with_sp_consortium().unwrap();
    assert_eq!(
        d.bootstrap_nodes().to_vec(),
        vec!["/ip4/127.0.0.1/tcp/8000", "/ip4/127.0.0.1/tcp/8001", "/ip4/127.0.0.1/tcp/8002"]
    );
    assert!(d.find_by_network(&NetworkId::new("T-Mobile", "DE")).is_some());
    assert!(d.find_by_network(&NetworkId::new("Vodafone", "UK")).is_some());
    assert!(d.find_by_network(&NetworkId::new("Orange", "FR")).is_some());
    assert!(d.find_by_network(&NetworkId::new("KPN", "NL")).is_none());
}
