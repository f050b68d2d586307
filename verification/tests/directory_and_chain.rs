use sp_cdr_reconciliation_bc::blockchain::block::{
    Block, MacroBlock, MacroBody, MacroHeader, MicroBlock, MicroBody, MicroHeader, ValidatorInfo as AnnouncedValidator,
};
use sp_cdr_reconciliation_bc::blockchain::transaction::Transaction;
use sp_cdr_reconciliation_bc::network::peer_discovery::{PeerDiscovery, SPOperatorInfo};
use sp_cdr_reconciliation_bc::primitives::blockchain_integration::{CDRBlockchainAPI, CDRReconciliationAPI};
use sp_cdr_reconciliation_bc::primitives::cdr::{CDRBatch, CDRStatus};
use sp_cdr_reconciliation_bc::primitives::error::BlockchainError;
use sp_cdr_reconciliation_bc::primitives::primitives::{hash_data, Blake2bHash, NetworkId};
use sp_cdr_reconciliation_bc::sp_blockchain::SPCDRBlockchain;
use sp_cdr_reconciliation_bc::storage::chain_store::SimpleChainStore;
use std::sync::Arc;

#[test]
fn test_peer_discovery() {
    let discovery = PeerDiscovery::with_sp_consortium().unwrap();

    let tmobile = discovery.find_by_network(&NetworkId::new("T-Mobile", "DE"));
    assert!(tmobile.is_some());

    let validators = discovery.get_validators();
    assert_eq!(validators.len(), 3);

    let topology = discovery.get_network_topology();
    assert!(topology.has_sufficient_validators());
    assert_eq!(topology.total_operators, 3);
}

fn operator(peer: &str, name: &str, country: &str, stake: u64, validator: bool, seen: u64) -> SPOperatorInfo {
    SPOperatorInfo {
        peer_id: peer.to_string(),
        network_id: NetworkId::new(name, country),
        operator_name: name.to_string(),
        country_code: country.to_string(),
        endpoints: vec!["/ip4/127.0.0.1/tcp/9000".to_string()],
        validator_stake: stake,
        supported_currencies: vec!["EUR".to_string()],
        is_validator: validator,
        last_seen: seen,
    }
}

#[test]
fn directory_tracks_registered_nodes() {
    let mut d = PeerDiscovery::new(vec!["/ip4/10.0.0.1/tcp/1".to_string()]);
    assert_eq!(d.bootstrap_nodes().len(), 1);
    d.register_operator(operator("p1", "Telefonica", "ES", 500, true, 1000)).unwrap();
    d.register_operator(operator("p2", "Movistar", "ES", 300, false, 1000)).unwrap();
    d.register_operator(operator("p3", "KPN", "NL", 700, true, 100)).unwrap();

    assert_eq!(d.find_by_network(&NetworkId::new("KPN", "NL")).unwrap().peer_id, "p3");
    assert!(d.find_by_network(&NetworkId::new("TIM", "IT")).is_none());
    assert_eq!(d.find_by_peer(&"p2".to_string()).unwrap().operator_name, "Movistar");
    assert_eq!(d.get_validators().len(), 2);
    assert_eq!(d.get_operators_by_country("ES").len(), 2);
    assert_eq!(d.all_operators().len(), 3);

    let partners = d.get_settlement_partners_at(&NetworkId::new("Telefonica", "ES"), 3700);
    assert_eq!(partners.len(), 1);
    assert_eq!(partners[0].peer_id, "p2");

    let topology = d.get_network_topology_at(5);
    assert_eq!(topology.total_operators, 3);
    assert_eq!(topology.validators, 2);
    assert_eq!(topology.total_stake, 1200);
    assert!(!topology.has_sufficient_validators());
    assert_eq!(topology.last_updated, 5);
    assert_eq!(topology.country_stake("ES"), 500);
    assert_eq!(topology.country_stake("NL"), 700);
    assert_eq!(topology.country_stake("FR"), 0);
    let spread = topology.geographical_distribution();
    assert_eq!(spread.get(&"ES".to_string()), Some(&2));
    assert_eq!(spread.get(&"NL".to_string()), Some(&1));

    d.update_operator_at(&"p2".to_string(), |mut o: SPOperatorInfo| {
        o.is_validator = true;
        o
    }, 3000)
    .unwrap();
    assert_eq!(d.find_by_peer(&"p2".to_string()).unwrap().last_seen, 3000);
    assert_eq!(d.get_validators().len(), 3);

    d.remove_operator(&"p3".to_string()).unwrap();
    assert!(d.find_by_peer(&"p3".to_string()).is_none());
    assert!(d.find_by_network(&NetworkId::new("KPN", "NL")).is_none());
    assert_eq!(d.all_operators().len(), 2);
}

#[test]
fn unproven_batch_is_refused_by_the_validator() {
    let mut api = CDRReconciliationAPI::new();

    let r = api.submit_cdr_batch(
        "T-Mobile-DE".to_string(),
        "Vodafone-UK".to_string(),
        1640995200,
        1641081600,
        125000,
        b"privacy_proof_data".to_vec(),
        vec![("T-Mobile-DE".to_string(), b"signature1".to_vec()), ("Vodafone-UK".to_string(), b"signature2".to_vec())],
    );

    match r {
        Err(BlockchainError::InvalidTransaction(m)) => assert_eq!(m, "Smart contract validation failed"),
        _ => panic!("expected the validator to refuse"),
    }
}

#[test]
fn unproven_settlement_is_refused_by_the_executor() {
    let mut api = CDRReconciliationAPI::new();

    let r = api.execute_settlement(
        "T-Mobile-DE".to_string(),
        "Vodafone-UK".to_string(),
        85000,
        "EUR".to_string(),
        vec![Blake2bHash::zero()],
        b"settlement_proof".to_vec(),
        b"multi_signature".to_vec(),
    );

    match r {
        Err(BlockchainError::InvalidTransaction(m)) => assert_eq!(m, "Settlement contract execution failed"),
        _ => panic!("expected the executor to refuse"),
    }
}

#[test]
fn batches_are_checked_before_the_chain() {
    let mut api = CDRBlockchainAPI::new(Arc::new(SimpleChainStore::new()));
    let mut batch = CDRBatch::new("T-Mobile-DE".to_string(), "Vodafone-UK".to_string(), 1, 2);
    match api.process_cdr_batch_at(batch.clone(), vec![1], vec![], 10) {
        Err(BlockchainError::InvalidTransaction(m)) => assert_eq!(m, "Total charges must be greater than zero"),
        _ => panic!("expected a refusal"),
    }
    batch.total_charges = 500;
    let unknown = CDRBatch { home_network: "Nowhere-XX".to_string(), ..batch.clone() };
    match api.process_cdr_batch_at(unknown, vec![1], vec![], 10) {
        Err(BlockchainError::InvalidTransaction(m)) => assert_eq!(m, "Invalid home network: Nowhere-XX"),
        _ => panic!("expected a refusal"),
    }
    let empty = CDRBatch { visited_network: String::new(), ..batch.clone() };
    match api.process_cdr_batch_at(empty, vec![1], vec![], 10) {
        Err(BlockchainError::InvalidTransaction(m)) => assert_eq!(m, "Network names cannot be empty"),
        _ => panic!("expected a refusal"),
    }
    match api.process_cdr_batch_at(batch.clone(), vec![7, 8], vec![], 10).unwrap() {
        Transaction::CDRRecord(t) => {
            assert_eq!(t.batch_id, batch.batch_id);
            assert_eq!(t.total_charges, 500);
            assert_eq!(t.encrypted_data, vec![7, 8]);
            assert!(t.privacy_proof.is_empty());
            assert_eq!(t.timestamp, 10);
        },
        _ => panic!("expected a record transaction"),
    }
    let _ = CDRStatus::Pending;
}

#[test]
fn settlements_without_contracts_are_recorded() {
    let mut api = CDRBlockchainAPI::new(Arc::new(SimpleChainStore::new()));
    match api.execute_settlement_at("A".to_string(), "B".to_string(), 100, "EUR".to_string(), vec![], vec![1], vec![2], 7).unwrap() {
        Transaction::Settlement(s) => {
            assert_eq!(s.settlement_id, hash_data(b"A:B:100"));
            assert_eq!(s.exchange_rate, 100);
            assert_eq!(s.amount, 100);
            assert_eq!(s.timestamp, 7);
        },
        _ => panic!("expected a settlement transaction"),
    }
    assert_eq!(api.get_cdr_batch_status(&Blake2bHash::zero()).unwrap(), Some(CDRStatus::Pending));
    assert!(api.get_settlement_history("A", "B", 0, 10).unwrap().is_empty());
}

fn macro_block(number: u32, validators: Option<Vec<AnnouncedValidator>>) -> Block {
    Block::Macro(MacroBlock {
        header: MacroHeader {
            network: NetworkId::SPConsortium,
            version: 1,
            block_number: number,
            round: 0,
            timestamp: 1234567890,
            parent_hash: Blake2bHash::zero(),
            parent_election_hash: Blake2bHash::zero(),
            seed: Blake2bHash::zero(),
            extra_data: vec![],
            state_root: Blake2bHash::zero(),
            body_root: Blake2bHash::zero(),
            history_root: Blake2bHash::zero(),
        },
        body: MacroBody { validators, lost_reward_set: vec![], disabled_set: vec![], transactions: vec![] },
    })
}

#[test]
fn pushed_blocks_move_the_heads() {
    let mut chain = SPCDRBlockchain::new(SimpleChainStore::new(), vec![]);
    assert_eq!(chain.head_async().block_number(), 0);
    assert_eq!(chain.network_id(), NetworkId::SPConsortium);

    let micro = Block::Micro(MicroBlock {
        header: MicroHeader {
            network: NetworkId::SPConsortium,
            version: 1,
            block_number: 5,
            timestamp: 1234567890,
            parent_hash: Blake2bHash::zero(),
            seed: Blake2bHash::zero(),
            extra_data: vec![],
            state_root: Blake2bHash::zero(),
            body_root: Blake2bHash::zero(),
            history_root: Blake2bHash::zero(),
        },
        body: MicroBody { transactions: vec![] },
    });
    chain.push_block(micro, b"micro").unwrap();
    assert_eq!(chain.head_async().block_number(), 5);
    assert_eq!(chain.macro_head_async().block_number(), 0);

    chain.push_block(macro_block(32, None), b"macro").unwrap();
    assert_eq!(chain.head_async().block_number(), 32);
    assert_eq!(chain.macro_head_async().block_number(), 32);
    assert_eq!(chain.election_head_async().block_number(), 0);

    let announced = AnnouncedValidator {
        address: Blake2bHash::from_bytes([1u8; 32]),
        signing_key: vec![1u8; 48],
        voting_key: vec![1u8; 32],
        reward_address: Blake2bHash::from_bytes([2u8; 32]),
        signal_data: None,
        inactive_from: None,
        jailed_from: None,
    };
    chain.push_block(macro_block(256, Some(vec![announced])), b"election").unwrap();
    assert_eq!(chain.election_head_async().block_number(), 256);
    assert_eq!(chain.block_number(), 0);
}
