[package]
name = "nearshare"
version = "0.1.0"
edition = "2021"
publish = false

[dependencies]
actix-multipart = { version = "0.7", default-features = false }
actix-web = { version = "4", default-features = false, features = ["macros"] }
aes-gcm = "0.10"
anyhow = "1"
futures-util = "0.3"
ignore = "0.4"
libp2p = { version = "0.54", features = ["cbor", "ed25519", "macros", "mdns", "noise", "request-response", "tcp", "tokio", "yamux"] }
rand = "0.8"
serde = { version = "1", features = ["derive"] }
serde_json = "1"
tokio = { version = "1", features = ["fs", "io-util", "macros", "rt-multi-thread", "sync"] }
