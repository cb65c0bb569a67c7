[package]
name = "ica_registry"
version = "0.1.0"
edition = "2021"
publish = false

[dependencies]
cosmwasm-schema = "1"
cosmwasm-std = "1"
cw-paginate = "*"
cw-storage-plus = "1"
cw2 = "1"
cw721-base = "0.18"
cw-utils = "1"
sg1 = "*"
sg2 = "*"
sg4 = "*"
sg721 = "*"
sg721-base = "*"
sg-std = "*"
url = "2"
