pub mod chain_store;
pub mod database;
pub mod history_store;
