[package]
name = "chunkstore"
version = "0.1.0"
edition = "2021"
publish = false

[dependencies]
xor_name = "*"
tokio = { version = "*", features = ["fs", "io-util", "macros", "rt-multi-thread"] }
glob = "*"
color-eyre = "*"
