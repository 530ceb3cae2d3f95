[package]
name = "floodchat"
version = "0.1.0"
edition = "2021"
publish = false

[dependencies]
libp2p = { version = "0.53", features = ["ed25519", "floodsub", "macros", "mdns", "noise", "tcp", "tokio", "yamux"] }
libp2p-identity = { version = "0.2", features = ["ed25519", "peerid", "rand"] }
tokio = { version = "1", features = ["io-std", "io-util", "macros", "rt-multi-thread"] }
anyhow = "1"
