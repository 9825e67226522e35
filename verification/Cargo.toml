[package]
name = "bluechip"
version = "0.1.0"
edition = "2021"
publish = false

[dependencies]
cosmwasm-schema = "2.1"
cosmwasm-std = "2.1"
cw2 = "2.0"
cw20 = "2.0"
cw-storage-plus = "2.0"
cw-utils = "2.0"
serde = { version = "1.0", features = ["derive"] }
thiserror = "1.0"
