[package]
name = "terranova"
version = "0.1.0"
edition = "2021"
publish = false

[dependencies]
evm = "=0.41.1"
primitive-types = { version = "=0.12.2", features = ["rlp"] }
rlp = "=0.5.2"
tiny-keccak = "=1.5.0"
cosmwasm-std = "=0.16.7"
cw-storage-plus = "=0.9.2"
cw2 = "=0.9.2"
schemars = "=0.8.22"
serde = { version = "=1.0.229", features = ["derive"] }
thiserror = "=1.0.69"
log = "=0.4.34"
