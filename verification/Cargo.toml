[package]
name = "query_bundler"
version = "0.1.0"
edition = "2021"
publish = false

[dependencies]
cosmwasm-schema = "1"
cosmwasm-std = "1"
cw-storage-plus = "1"
cw2 = "1"
cw20 = "1"
cw721 = "0.16"
cw721-metadata-onchain = "0.16"
serde = { version = "1", default-features = false, features = ["derive"] }
thiserror = "1"
