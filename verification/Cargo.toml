[package]
name = "adex_validator_stack"
version = "0.1.0"
edition = "2021"
publish = false

[dependencies]
hex = "0.4"
tiny-keccak = { version = "2", features = ["keccak"] }
serde = { version = "1", features = ["derive"] }
serde_json = "1"
serde_urlencoded = "0.7"
chrono = { version = "0.4", features = ["serde"] }
thiserror = "1"
futures = "0.3"
hyper = "0.14"
reqwest = { version = "0.11", default-features = false, features = ["json"] }
tokio = { version = "1", features = ["rt-multi-thread", "macros"] }
slog = "2"
async-trait = "0.1"
tokio-postgres = { version = "0.7", features = ["with-chrono-0_4", "with-serde_json-1"] }
postgres-types = { version = "0.2", features = ["with-chrono-0_4", "with-serde_json-1"] }
bytes = "1"
web3 = { version = "0.19", default-features = false, features = ["http"] }
once_cell = "1"
