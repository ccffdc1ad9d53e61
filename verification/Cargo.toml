[package]
name = "dig-offers"
version = "0.1.0"
edition = "2021"
publish = false

[dependencies]
chia-wallet-sdk = "=0.37.1"
chia-protocol = "=0.52.1"
chia-puzzle-types = "=0.52.1"
chia-sha2 = "=0.52.1"
chia-traits = "=0.52.1"
indexmap = "=2.14.2"
thiserror = "=2.0.21"

[dev-dependencies]
chia-sdk-test = "=0.37.1"
anyhow = "=1.0.104"
