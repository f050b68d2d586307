//! Handlers behind the record ingestion service: what a submitted billing
//! record or batch does to a pipeline and what the caller is answered.
pub mod bce_ingestion;
