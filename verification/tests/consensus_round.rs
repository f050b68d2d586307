use sp_cdr_reconciliation_bc::collections::VecMap;
use sp_cdr_reconciliation_bc::crypto::bls::BLSPrivateKey;
use sp_cdr_reconciliation_bc::network::consensus_networking::{ConsensusNetwork, ConsensusPhase};
use sp_cdr_reconciliation_bc::primitives::primitives::NetworkId;

#[test]
fn test_consensus_network() {
    let peer1 = "peer-1".to_string();
    let peer2 = "peer-2".to_string();
    let peer3 = "peer-3".to_string();

    let validators = vec![peer1.clone(), peer2.clone(), peer3.clone()];

    let mut weights = VecMap::new();
    weights.insert(peer1.clone(), 100);
    weights.insert(peer2.clone(), 100);
    weights.insert(peer3.clone(), 100);

    let consensus = ConsensusNetwork::new(
        NetworkId::new("Test", "Network"),
        peer1,
        validators,
        weights,
        BLSPrivateKey::generate().unwrap(),
        vec![],
    );

    let state = consensus.get_state();
    assert_eq!(state.current_round, 0);
    assert_eq!(state.phase, ConsensusPhase::Propose);
}
