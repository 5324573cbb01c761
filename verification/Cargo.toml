[package]
name = "nostr_mcp"
version = "0.1.0"
edition = "2021"
publish = false

[dependencies]
anyhow = "*"
base64 = "*"
chrono = { version = "*", default-features = false, features = ["std"] }
dirs = "*"
dotenvy = "*"
image = { version = "*", default-features = false, features = ["png"] }
nostr-connect = "*"
nostr-sdk = "*"
nwc = "*"
qrcode = { version = "*", default-features = false }
reqwest = { version = "*", default-features = false }
serde = { version = "*", features = ["derive"] }
serde_json = "*"
sha2 = "*"
tokio = { version = "*", features = ["full"] }
tracing = "*"
tracing-subscriber = { version = "*", features = ["env-filter"] }
