use sp_cdr_reconciliation_bc::crypto::PublicKey;
use sp_cdr_reconciliation_bc::primitives::cdr::{
    calculate_settlement_amount, is_roaming_scenario, validate_network_id, validate_settlement, CDRBatch,
    CDRStatus,
};
use sp_cdr_reconciliation_bc::primitives::crypto::{create_commitment, verify_hash_integrity};
use sp_cdr_reconciliation_bc::primitives::primitives::{hash_data, Blake2bHash};
use sp_cdr_reconciliation_bc::smart_contracts::crypto_verifier::{BLSVerifier, SettlementProofInputs, ZKProofVerifier};
use sp_cdr_reconciliation_bc::smart_contracts::settlement::{
    CDRBatchContract, SettlementContract, SettlementExecutionContract, SettlementPeriod, SettlementStatus,
};
use sp_cdr_reconciliation_bc::smart_contracts::settlement_contract::{
    ExecutableSettlementContract, SettlementContractCompiler, SettlementContractFactory,
};
use sp_cdr_reconciliation_bc::smart_contracts::vm::Instruction;

#[test]
fn test_cdr_batch_creation() {
    let batch = CDRBatch::new("T-Mobile-DE".to_string(), "Vodafone-UK".to_string(), 1640995200, 1641081600);

    assert_eq!(batch.home_network, "T-Mobile-DE");
    assert_eq!(batch.visited_network, "Vodafone-UK");
    assert_eq!(batch.total_records, 0);
    assert_eq!(batch.total_charges, 0);
    assert_eq!(batch.status, CDRStatus::Pending);
}

#[test]
fn test_cdr_batch_record_addition() {
    let mut batch = CDRBatch::new("Orange-FR".to_string(), "TIM-IT".to_string(), 1640995200, 1641081600);

    batch.add_record(1500);
    batch.add_record(2750);

    assert_eq!(batch.total_records, 2);
    assert_eq!(batch.total_charges, 4250);
}

#[test]
fn cdr_test_settlement_calculation() {
    let settlement = calculate_settlement_amount(100000, 110, "EUR", "USD").unwrap();
    assert_eq!(settlement, 110000);

    let same_currency = calculate_settlement_amount(50000, 120, "EUR", "EUR").unwrap();
    assert_eq!(same_currency, 50000);
}

#[test]
fn test_network_validation() {
    assert!(validate_network_id("T-Mobile-DE").is_ok());
    assert!(validate_network_id("Vodafone-UK").is_ok());
    assert!(validate_network_id("Unknown-Network").is_err());
}

#[test]
fn test_roaming_scenario_detection() {
    assert!(is_roaming_scenario("T-Mobile-DE", "Vodafone-UK"));
    assert!(is_roaming_scenario("Orange-FR", "TIM-IT"));
    assert!(!is_roaming_scenario("T-Mobile-DE", "T-Mobile-DE"));
}

#[test]
fn test_settlement_validation() {
    let cdr_total = 75000;
    let exchange_rate = 85;
    let settlement_amount = 63750;

    let is_valid = validate_settlement(cdr_total, exchange_rate, settlement_amount).unwrap();
    assert!(is_valid);

    let is_invalid = validate_settlement(cdr_total, exchange_rate, 50000).unwrap();
    assert!(!is_invalid);
}

#[test]
fn test_hash_integrity_verification() {
    let data = b"test data for integrity check";
    let hash = hash_data(data);

    assert!(verify_hash_integrity(data, &hash));
    assert!(!verify_hash_integrity(b"different data", &hash));
}

#[test]
fn test_commitment_creation() {
    let data = b"secret data";
    let randomness = b"random_value_12345";

    let commitment1 = create_commitment(data, randomness);
    let commitment2 = create_commitment(data, randomness);

    assert_eq!(commitment1, commitment2);

    let commitment3 = create_commitment(data, b"different_random");
    assert_ne!(commitment1, commitment3);
}

#[test]
fn test_settlement_inputs_preparation() {
    let verifier = ZKProofVerifier::new();

    let inputs = SettlementProofInputs {
        total_charges: 100000,
        exchange_rate: 85,
        settlement_amount: 85000,
        period_hash: hash_data(b"2024-01"),
        network_pair_hash: hash_data(b"T-Mobile-DE:Vodafone-UK"),
    };

    let public_inputs = verifier.prepare_settlement_inputs(&inputs).unwrap();
    assert_eq!(public_inputs.len(), 5);
}

#[test]
fn test_bls_verifier_setup() {
    let mut verifier = BLSVerifier::new();

    let dummy_key = PublicKey::from_bytes(&[1; 48]).unwrap();
    verifier.register_operator("T-Mobile-DE".to_string(), dummy_key);

    assert!(verifier.has_operator(&"T-Mobile-DE".to_string()));
}

#[test]
fn test_settlement_contract_creation() {
    let participants = vec!["T-Mobile-DE".to_string(), "Vodafone-UK".to_string()];
    let contract = SettlementContract::new(participants.clone(), SettlementPeriod::Monthly, 2592000);

    assert_eq!(contract.participants, participants);
    assert!(matches!(contract.settlement_period, SettlementPeriod::Monthly));
    assert!(matches!(contract.status, SettlementStatus::Active));
}

#[test]
fn test_cdr_batch_contract() {
    let mut contract = CDRBatchContract::new(
        "Orange-FR".to_string(),
        "TIM-IT".to_string(),
        1640995200,
        1641081600,
        b"encrypted_cdr_data".to_vec(),
        b"privacy_proof".to_vec(),
        125000,
        "EUR".to_string(),
    );

    assert_eq!(contract.status, CDRStatus::Pending);

    contract.add_signature("Orange-FR".to_string(), b"signature1".to_vec()).unwrap();
    contract.add_signature("TIM-IT".to_string(), b"signature2".to_vec()).unwrap();

    assert_eq!(contract.status, CDRStatus::Validated);
    assert!(contract.is_ready_for_settlement());
}

#[test]
fn settlement_test_settlement_execution() {
    let execution = SettlementExecutionContract::new(
        "T-Mobile-DE".to_string(),
        "Vodafone-UK".to_string(),
        85000,
        "EUR".to_string(),
        100,
        vec![Blake2bHash::zero()],
        b"settlement_proof".to_vec(),
        b"multi_signature".to_vec(),
    );

    assert!(execution.verify_settlement_proof().unwrap());
    assert!(execution.verify_multi_signature().unwrap());
}

#[test]
fn test_cdr_validator_compilation() {
    let bytecode = SettlementContractCompiler::compile_cdr_batch_validator();
    assert!(!bytecode.is_empty());

    assert!(matches!(bytecode[0], Instruction::Log(_)));

    assert!(matches!(bytecode.last(), Some(Instruction::Halt)));
}

#[test]
fn test_settlement_calculator_creation() {
    let contract_id = hash_data(b"test_calc");
    let contract = ExecutableSettlementContract::new_settlement_calculator(contract_id, 100000, 85000, 100);

    assert_eq!(contract.contract_address, contract_id);
    assert!(!contract.bytecode.is_empty());
    assert_eq!(contract.state.len(), 3);
}

#[test]
fn test_settlement_workflow_creation() {
    let contracts = SettlementContractFactory::create_settlement_workflow(
        "T-Mobile-DE",
        "Vodafone-UK",
        &[Blake2bHash::zero()],
        &[(100000, 85000)],
        110,
    )
    .unwrap();

    assert_eq!(contracts.len(), 3);
}

#[test]
fn test_netting_contract_creation() {
    let operators = vec!["T-Mobile-DE".to_string(), "Vodafone-UK".to_string(), "Orange-FR".to_string()];
    let obligations = vec![
        ("T-Mobile-DE".to_string(), "Vodafone-UK".to_string(), 100000),
        ("Vodafone-UK".to_string(), "Orange-FR".to_string(), 80000),
        ("Orange-FR".to_string(), "T-Mobile-DE".to_string(), 60000),
    ];

    let contract = SettlementContractFactory::create_netting_contract(&operators, &obligations).unwrap();

    assert!(!contract.bytecode.is_empty());
    assert_eq!(contract.state.len(), 3);
}
