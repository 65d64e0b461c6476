[package]
name = "devchain"
version = "0.1.0"
edition = "2021"
publish = false

[dependencies]
axum = "*"
libp2p = { version = "*", default-features = false, features = ["ed25519"] }
serde = { version = "*", features = ["derive"] }
serde_json = "*"
sha2 = "*"
tempfile = "*"
tokio = { version = "*", features = ["rt-multi-thread", "macros", "net"] }
tower-http = { version = "*", features = ["cors"] }
uuid = { version = "*", features = ["v4"] }
