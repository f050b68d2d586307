use sp_cdr_reconciliation_bc::api::bce_ingestion::{get_batch_status, submit_bce_batch_at, submit_bce_record, BCERecordRequest};
use sp_cdr_reconciliation_bc::bce_pipeline::{BCEPipeline, BCERecord, PipelineConfig as BcePipelineConfig};
use sp_cdr_reconciliation_bc::blockchain::block::TransactionData;
use sp_cdr_reconciliation_bc::cdr_pipeline::{CDRPipeline, SettlementStatus};
use sp_cdr_reconciliation_bc::node::{demo_pipeline_config, network_for_name, parse_block_id, seed_demo_traffic, BlockQuery};
use sp_cdr_reconciliation_bc::primitives::primitives::{hash_data, NetworkId};

fn bce_config() -> BcePipelineConfig {
    BcePipelineConfig {
        keys_dir: "./keys".to_string(),
        batch_size: 100,
        settlement_threshold_cents: 100,
        auto_accept_threshold_cents: 500,
        enable_triangular_netting: true,
        is_bootstrap: false,
    }
}

fn record(id: &str, duration: u64, up: u64, down: u64, charge: u64) -> BCERecord {
    BCERecord {
        record_id: id.to_string(),
        record_type: "DATA_SESSION_CDR".to_string(),
        imsi: "262011234567890".to_string(),
        home_plmn: "26201".to_string(),
        visited_plmn: "23410".to_string(),
        session_duration: duration,
        bytes_uplink: up,
        bytes_downlink: down,
        wholesale_charge: charge,
        retail_charge: charge,
        currency: "EUR".to_string(),
        timestamp: 1_700_000_000,
        charging_id: 1,
    }
}

#[test]
fn network_names_select_networks() {
    assert_eq!(network_for_name("tmobile"), Some(NetworkId::new("T-Mobile", "DE")));
    assert_eq!(network_for_name("vodafone"), Some(NetworkId::new("Vodafone", "UK")));
    assert_eq!(network_for_name("orange"), Some(NetworkId::new("Orange", "FR")));
    assert_eq!(network_for_name("consortium"), Some(NetworkId::SPConsortium));
    assert_eq!(network_for_name("devnet"), Some(NetworkId::DevNet));
    assert_eq!(network_for_name("testnet"), Some(NetworkId::TestNet));
    assert_eq!(network_for_name("mainnet"), None);
}

#[test]
fn demo_pipeline_settings() {
    let c = demo_pipeline_config("./data");
    assert_eq!(c.keys_dir, "./data/zkp_keys");
    assert_eq!(c.batch_size, 1000);
    assert_eq!(c.settlement_threshold_cents, 100);
    assert_eq!(c.auto_accept_threshold_cents, 500);
    assert!(c.enable_triangular_netting);
}

#[test]
fn block_ids_are_numbers_or_hashes() {
    assert!(matches!(parse_block_id("42"), BlockQuery::Number(42)));
    assert!(matches!(parse_block_id("+7"), BlockQuery::Number(7)));
    assert!(matches!(parse_block_id("4294967295"), BlockQuery::Number(4294967295)));
    let hex = "ab".repeat(32);
    match parse_block_id(&hex) {
        BlockQuery::Hash(h) => assert_eq!(h.0, [0xab; 32]),
        _ => panic!("expected a hash"),
    }
    assert!(matches!(parse_block_id("abcd"), BlockQuery::WrongLength));
    assert!(matches!(parse_block_id("4294967296"), BlockQuery::WrongLength));
    assert!(matches!(parse_block_id("xyz"), BlockQuery::Invalid));
    assert!(matches!(parse_block_id(""), BlockQuery::WrongLength));
    assert!(matches!(parse_block_id("-1"), BlockQuery::Invalid));
}

#[test]
fn only_the_consortium_node_gets_sample_traffic() {
    let mut p = CDRPipeline::new(NetworkId::new("T-Mobile", "DE"), demo_pipeline_config("./data"));
    assert_eq!(seed_demo_traffic(&mut p, &NetworkId::new("T-Mobile", "DE")), 0);
    let mut c = CDRPipeline::new(NetworkId::SPConsortium, demo_pipeline_config("./data"));
    assert_eq!(seed_demo_traffic(&mut c, &NetworkId::SPConsortium), 3);
}

#[test]
fn submitted_record_is_answered() {
    let mut p = BCEPipeline::new(NetworkId::new("T-Mobile", "DE"), bce_config());
    let ok = submit_bce_record(
        &mut p,
        BCERecordRequest { record: record("R1", 213, 1247680, 8932456, 23822), operator_signature: None },
    )
    .unwrap();
    assert!(ok.success);
    assert_eq!(ok.message, "BCE record R1 processed successfully");
    assert_eq!(ok.batch_id, Some("batch_26201_23410".to_string()));

    let data_only = submit_bce_record(
        &mut p,
        BCERecordRequest { record: record("R2", 0, 3 * 1048576, 0, 101), operator_signature: None },
    )
    .unwrap();
    assert!(data_only.success);
    assert_eq!(data_only.message, "BCE record R2 processed successfully");

    let short_call = submit_bce_record(
        &mut p,
        BCERecordRequest { record: record("R3", 120, 0, 0, 200), operator_signature: None },
    )
    .unwrap();
    assert!(short_call.success);
}

#[test]
fn submitted_batch_counts_records() {
    let mut p = BCEPipeline::new(NetworkId::new("T-Mobile", "DE"), bce_config());
    let requests = vec![
        BCERecordRequest { record: record("A", 213, 1247680, 8932456, 23822), operator_signature: None },
        BCERecordRequest { record: record("B", 0, 3 * 1048576, 0, 101), operator_signature: None },
    ];
    let r = submit_bce_batch_at(&mut p, requests, 1_700_000_000).unwrap();
    assert!(r.success);
    assert_eq!(r.message, "Processed 2 records successfully, 0 failed");
    assert_eq!(r.batch_id, Some("batch_1700000000".to_string()));

    let empty = submit_bce_batch_at(&mut p, Vec::new(), 5).unwrap();
    assert!(empty.success);
    assert_eq!(empty.message, "Processed 0 records successfully, 0 failed");
}

#[test]
fn batch_status_is_reported_completed() {
    let s = get_batch_status("batch_1".to_string());
    assert_eq!(s.batch_id, "batch_1");
    assert_eq!(s.record_count, 0);
    assert_eq!(s.total_charges_cents, 0);
    assert_eq!(s.processing_status, "completed");
}

#[test]
fn accepted_settlement_is_finalized_with_a_transaction() {
    let tmobile = NetworkId::new("T-Mobile", "DE");
    let vodafone = NetworkId::new("Vodafone", "UK");
    let mut p = CDRPipeline::new(tmobile.clone(), demo_pipeline_config("./data"));
    let _ = p.create_settlement_proposal_at(tmobile.clone(), vodafone.clone(), 45000, vec![1, 2, 3], 1_700_000_000, 9);
    let id = hash_data(format!("{:?}:{:?}:{}", tmobile, vodafone, 45000).as_bytes());

    let tx = p.process_settlement_acceptance(&id).expect("a known proposal");
    assert_eq!(tx.value, 45000);
    assert_eq!(tx.fee, 100);
    assert_eq!(tx.sender, hash_data(format!("{:?}", tmobile).as_bytes()));
    assert_eq!(tx.recipient, hash_data(format!("{:?}", vodafone).as_bytes()));
    assert_eq!(tx.signature, vec![0u8; 64]);
    match &tx.data {
        TransactionData::Settlement(s) => {
            assert_eq!(s.creditor_network, format!("{:?}", tmobile));
            assert_eq!(s.debtor_network, format!("{:?}", vodafone));
            assert_eq!(s.amount, 45000);
            assert_eq!(s.currency, "EUR");
            assert_eq!(s.period, "monthly");
        },
        _ => panic!("expected a settlement"),
    }
    assert_eq!(p.get_stats().settlements_finalized, 1);
    assert_eq!(p.get_stats().total_amount_settled_cents, 45000);

    let unknown = hash_data(b"no such proposal");
    assert!(p.finalize_settlement(&unknown).is_none());
    assert_eq!(p.get_stats().settlements_finalized, 1);
    let _ = SettlementStatus::Finalized;
}

#[test]
fn sample_records_need_room() {
    let mut p = BCEPipeline::new(NetworkId::new("T-Mobile", "DE"), bce_config());
    let r = p.add_sample_bce_records().expect("room for the samples");
    let inputs = r.unwrap();
    assert_eq!(inputs.len(), 2);
    assert_eq!(inputs[0].total_charges, 23822);
    assert_eq!(inputs[1].total_charges, 18020);
    assert_eq!(p.get_stats().bce_batches_processed, 2);
    assert!(p.process_settlements().is_empty());
}
