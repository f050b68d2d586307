pub mod consensus_networking;
pub mod netting;
pub mod operator_messages;
pub mod peer_discovery;
pub mod settlement_messaging;
