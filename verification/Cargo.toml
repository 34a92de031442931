[package]
name = "contract_registry"
version = "0.1.0"
edition = "2021"
publish = false

[dependencies]
bs58 = "=0.5.1"
sha2 = "=0.11.0"
hmac = "=0.13.0"
serde = { version = "=1.0.229", features = ["derive"] }
serde_json = "=1.0.151"
tokio = { version = "=1.53.2", features = ["full"] }
futures = "=0.3.34"
reqwest = { version = "=0.13.5", default-features = false, features = ["json"] }
warp = { version = "=0.4.3", features = ["server"] }
dotenv = "=0.15.0"
tracing-subscriber = { version = "=0.3.23", features = ["env-filter"] }
near-crypto = "=0.37.4"
near-primitives = "=0.37.4"
near-jsonrpc-client = "=0.22.0"
near-jsonrpc-primitives = "=0.37.4"
