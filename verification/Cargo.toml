[package]
name = "wallet_gateway"
version = "0.1.0"
edition = "2021"
publish = false

[dependencies]
base64 = "0.22"
hex = "0.4"
url = "2"
uuid = { version = "1", features = ["v4"] }
ethabi = "18"
serde = { version = "1", features = ["derive"] }
serde_json = "1"
bincode = "1"
toml = "0.8"
anyhow = "1"
log = "0.4"
async-trait = "0.1"
reqwest = { version = "0.12", default-features = false, features = ["json"] }
tokio = { version = "1", features = ["sync", "rt", "macros"] }
