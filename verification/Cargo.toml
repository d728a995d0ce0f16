[package]
name = "drop_puppeteer"
version = "0.1.0"
edition = "2021"
publish = false

[dependencies]
cosmwasm-schema = "1.5"
cosmwasm-std = "1.5"
cw-ownable = "0.5"
cw-storage-plus = "1.2"
cw2 = "1.1"
cw721 = "0.18"
neutron-sdk = "0.10"
prost = "0.12"
semver = "1"
thiserror = "1"
