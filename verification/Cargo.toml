[package]
name = "qstaking"
version = "0.1.0"
edition = "2021"
publish = false

[dependencies]
cosmwasm-std = { version = "=1.5.11", features = ["staking"] }
cw2 = "=1.1.2"
cw20 = "=1.1.2"
cw-storage-plus = "=1.2.0"
cw-utils = "=1.0.3"
schemars = "=0.8.22"
serde = { version = "=1.0.229", features = ["derive"] }
thiserror = "=1.0.69"
