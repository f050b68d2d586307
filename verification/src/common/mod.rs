pub mod consensus;
pub mod network;
pub mod storage_interface;
