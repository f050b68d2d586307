pub mod primitives;
pub mod error;
pub mod cdr;
pub mod crypto;
pub mod text;
pub mod blockchain_integration;
