[package]
name = "cw20_bondcamp"
version = "0.1.0"
edition = "2021"
publish = false

[dependencies]
cosmwasm-std = { version = "=0.16.7", features = ["staking"] }
cw0 = "=0.9.1"
cw2 = "=0.9.2"
cw20 = "=0.9.1"
cw20-base = { version = "=0.9.1", features = ["library"] }
cw20-bonding = { version = "=0.11.1", features = ["library"] }
cw-storage-plus = "=0.9.2"
schemars = "0.8"
serde = { version = "1.0", features = ["derive"] }
thiserror = "1.0"
