[package]
name = "quic_dispatch"
version = "0.1.0"
edition = "2021"
publish = false

[dependencies]
quiche = { version = "*", default-features = false, features = ["openssl"] }
napi = "2"
napi-derive = "2"
