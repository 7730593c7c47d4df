[package]
name = "merkle_builder"
version = "0.1.0"
edition = "2021"
publish = false

[dependencies]
sha3 = "=0.12.0"
async-trait = "=0.1.92"
bytes = { version = "=1.12.1", features = ["serde"] }
num = { version = "=0.4.3", features = ["serde"] }
serde = { version = "=1.0.229", features = ["derive"] }
eyre = "=0.6.14"
