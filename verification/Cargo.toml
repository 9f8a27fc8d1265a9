[package]
name = "taotie_parsers"
version = "0.1.0"
edition = "2021"
publish = false

[dependencies]
chrono = "0.4"
encoding_rs = "0.8"
flate2 = "1"
sha2 = "0.10"
serde_json = "1"
evtx = "*"
prefetch-core = "*"
thiserror = "*"
