[package]
name = "opgethdb"
version = "0.1.0"
edition = "2021"
publish = false

[dependencies]
alloy-rlp = "*"
alloy-primitives = "*"
anyhow = "*"
clap = { version = "*", features = ["derive"] }
tracing = "*"
tracing-subscriber = "*"
