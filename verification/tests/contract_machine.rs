use sp_cdr_reconciliation_bc::primitives::primitives::{hash_data, Blake2bHash, NetworkId};
use sp_cdr_reconciliation_bc::smart_contracts::vm::{ContractVM, ExecutionContext, Instruction, MemoryStorage};
use sp_cdr_reconciliation_bc::smart_contracts::{ContractExecutor, SmartContract};

#[test]
fn test_smart_contract_creation() {
    let contract = SmartContract {
        contract_id: hash_data(b"contract_1"),
        code_hash: hash_data(b"contract_code"),
        creator: hash_data(b"creator_address"),
        created_at: 1640995200,
        network: NetworkId::SPConsortium,
    };

    assert_eq!(contract.network, NetworkId::SPConsortium);
    assert_ne!(contract.contract_id, Blake2bHash::zero());
}

#[test]
fn test_contract_executor() {
    let executor = ContractExecutor::new(NetworkId::SPConsortium);

    let contract = SmartContract {
        contract_id: hash_data(b"test_contract"),
        code_hash: hash_data(b"test_code"),
        creator: hash_data(b"test_creator"),
        created_at: 1640995200,
        network: NetworkId::SPConsortium,
    };

    let result = executor.execute(&contract, b"test_input");
    assert!(result.is_ok());
}

fn context(address: Blake2bHash, gas_limit: u64) -> ExecutionContext {
    ExecutionContext {
        contract_address: address,
        caller: Blake2bHash::zero(),
        timestamp: 1640995200,
        gas_limit,
        gas_used: 0,
        value: 0,
    }
}

#[test]
fn test_basic_arithmetic() {
    let storage = MemoryStorage::new();
    let mut vm = ContractVM::new(storage);

    let contract_addr = hash_data(b"test_contract");

    let program = vec![Instruction::Push(5), Instruction::Push(3), Instruction::Add, Instruction::Halt];

    vm.deploy_contract(contract_addr, program).unwrap();

    let result = vm.execute(context(contract_addr, 1000), &[]).unwrap();
    assert!(result.success);
    assert_eq!(result.return_value, Some(8));
}

#[test]
fn vm_test_settlement_calculation() {
    let storage = MemoryStorage::new();
    let mut vm = ContractVM::new(storage);

    let contract_addr = hash_data(b"settlement_contract");

    let program = vec![
        Instruction::Push(100000),
        Instruction::Push(85),
        Instruction::CalculateSettlement,
        Instruction::Halt,
    ];

    vm.deploy_contract(contract_addr, program).unwrap();

    let result = vm.execute(context(contract_addr, 1000), &[]).unwrap();
    assert!(result.success);
    assert_eq!(result.return_value, Some(85000));
}

#[test]
fn test_state_storage() {
    let storage = MemoryStorage::new();
    let mut vm = ContractVM::new(storage);

    let contract_addr = hash_data(b"storage_contract");
    let key = hash_data(b"total_amount");

    let program = vec![Instruction::Push(42), Instruction::Store(key), Instruction::Load(key), Instruction::Halt];

    vm.deploy_contract(contract_addr, program).unwrap();

    let result = vm.execute(context(contract_addr, 1000), &[]).unwrap();
    assert!(result.success);
    assert_eq!(result.return_value, Some(42));
    assert!(result.gas_used > 0);
}

#[test]
fn test_gas_metering() {
    let storage = MemoryStorage::new();
    let mut vm = ContractVM::new(storage);

    let contract_addr = hash_data(b"gas_test_contract");

    let program = vec![Instruction::Push(5), Instruction::Push(3), Instruction::Add, Instruction::Halt];

    vm.deploy_contract(contract_addr, program).unwrap();

    let result = vm.execute(context(contract_addr, 1000), &[]).unwrap();
    assert!(result.success);
    assert_eq!(result.return_value, Some(8));
    assert_eq!(result.gas_used, 5);
}

#[test]
fn test_gas_limit_exceeded() {
    let storage = MemoryStorage::new();
    let mut vm = ContractVM::new(storage);

    let contract_addr = hash_data(b"gas_limit_test");

    let program = vec![Instruction::VerifyProof, Instruction::Halt];

    vm.deploy_contract(contract_addr, program).unwrap();

    let result = vm.execute(context(contract_addr, 100), &[]).unwrap();
    assert!(!result.success);
    assert!(result.error.is_some());
    assert!(result.error.unwrap().contains("Out of gas"));
}

#[test]
fn vm_runs_missing_contract_as_error() {
    let mut vm = ContractVM::new(MemoryStorage::new());
    let r = vm.execute(context(hash_data(b"nowhere"), 1000), &[]);
    assert!(r.is_err());
}
