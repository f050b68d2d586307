[package]
name = "sp_cdr_reconciliation_bc"
version = "0.1.0"
edition = "2021"
publish = false

[dependencies]
sha2 = "=0.10.9"
hex = "=0.4.3"
blst = "=0.3.17"
getrandom = "=0.2.17"
serde = { version = "=1.0.229", features = ["derive"] }
serde_json = "=1.0.154"
ark-groth16 = "=0.4.0"
ark-bn254 = "=0.4.0"
ark-ff = "=0.4.2"
ark-serialize = "=0.4.2"
ark-snark = "=0.4.0"
ark-std = "=0.4.0"
thiserror = "=1.0.69"
clap = { version = "=4.6.7", features = ["derive"] }
chrono = "=0.4.45"
rand = "=0.8.8"
tokio = { version = "1", features = ["macros", "rt-multi-thread", "sync", "signal", "time"] }
warp = { version = "0.3", default-features = false }
tracing = "0.1"
tracing-subscriber = "0.3"
