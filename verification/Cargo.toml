[package]
name = "libd2d"
version = "0.1.0"
edition = "2021"
publish = false

[dependencies]
ndarray = { version = "=0.15.6", features = ["serde"] }
ndarray-rand = "=0.14.0"
serde = { version = "1", features = ["derive"] }
serde_json = "1"
async-std = { version = "1", features = ["attributes"] }
futures = "0.3"
libp2p = { version = "0.53", default-features = false, features = ["async-std", "gossipsub", "noise", "tcp", "yamux"] }
