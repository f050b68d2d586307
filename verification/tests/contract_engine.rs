use sp_cdr_reconciliation_bc::primitives::primitives::{hash_data, Blake2bHash};
use sp_cdr_reconciliation_bc::smart_contracts::consensus_integration::{
    ConsensusContractEngine, ContractDeployment, ContractTransaction,
};
use sp_cdr_reconciliation_bc::smart_contracts::crypto_verifier::ContractCryptoVerifier;
use sp_cdr_reconciliation_bc::smart_contracts::vm::{Instruction, MemoryStorage};

#[test]
fn test_contract_deployment() {
    let storage = MemoryStorage::new();
    let crypto_verifier = ContractCryptoVerifier::new();
    let mut engine = ConsensusContractEngine::new(storage, crypto_verifier);

    let deployment = ContractDeployment {
        deployer: hash_data(b"deployer"),
        bytecode: vec![Instruction::Push(42), Instruction::Halt],
        constructor_data: vec![],
        gas_limit: 100000,
        value: 0,
        nonce: 1,
    };

    let (contract_addr, receipt) = engine.deploy_contract(deployment, b"{\"deployment\":1}", 1).unwrap();

    assert!(receipt.success);
    assert_ne!(contract_addr, Blake2bHash::zero());
    let mut expected = hash_data(b"deployer").0.to_vec();
    expected.extend_from_slice(&1u64.to_le_bytes());
    assert_eq!(contract_addr, hash_data(&expected));
}

#[test]
fn test_contract_execution() {
    let storage = MemoryStorage::new();
    let crypto_verifier = ContractCryptoVerifier::new();
    let mut engine = ConsensusContractEngine::new(storage, crypto_verifier);

    let deployment = ContractDeployment {
        deployer: hash_data(b"deployer"),
        bytecode: vec![Instruction::Push(5), Instruction::Push(3), Instruction::Add, Instruction::Halt],
        constructor_data: vec![],
        gas_limit: 100000,
        value: 0,
        nonce: 1,
    };

    let (contract_addr, _) = engine.deploy_contract(deployment, b"{\"deployment\":1}", 1).unwrap();

    let transaction = ContractTransaction {
        contract_address: contract_addr,
        caller: hash_data(b"caller"),
        input_data: vec![],
        gas_limit: 50000,
        value: 0,
        nonce: 1,
    };

    let receipt = engine.execute_transaction(transaction, b"{\"transaction\":1}", 2, 0).unwrap();

    assert!(receipt.success);
    assert_eq!(receipt.return_value, Some(8));
    assert_eq!(receipt.transaction_hash, hash_data(b"{\"transaction\":1}"));
}
