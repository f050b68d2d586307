pub mod api;
pub mod bce_pipeline;
pub mod blockchain;
pub mod cdr_pipeline;
pub mod clock;
pub mod collections;
pub mod common;
pub mod crypto;
pub mod encoding;
pub mod entropy;
pub mod network;
pub mod node;
pub mod primitives;
pub mod smart_contracts;
pub mod sp_blockchain;
pub mod storage;
