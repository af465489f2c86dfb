[package]
name = "cw_web31_dns"
version = "0.1.0"
edition = "2021"
publish = false

[dependencies]
bech32 = "*"
cosmwasm-std = "*"
cosmwasm-schema = "*"
cw-storage-plus = "*"
cw2 = "*"
serde_json = "*"
thiserror = "*"
