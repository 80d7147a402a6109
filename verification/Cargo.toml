[package]
name = "light-client-core"
version = "0.1.0"
edition = "2021"
publish = false

[dependencies]
crossbeam-channel = "=0.5.17"
sled = "=0.34.7"
serde_cbor = "=0.11.2"
tendermint-proto = "=0.40.4"
prost = "=0.13.5"
serde = { version = "=1.0.229", features = ["derive"] }
