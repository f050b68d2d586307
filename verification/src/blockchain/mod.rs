pub mod block;
pub mod chain;
pub mod transaction;
pub mod validator_set;
