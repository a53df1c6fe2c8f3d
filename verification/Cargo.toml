[package]
name = "ps_hash"
version = "0.1.0"
edition = "2021"
publish = false

[dependencies]
blake3 = "1"
ps-base64 = "=0.1.0-8"
ps-ecc = "=0.1.0-9"
ps-pint16 = "=0.1.0-5"
ps-util = "=0.1.0-9"
sha2 = "0.10"
thiserror = "2"
