[package]
name = "mls_protospec"
version = "0.1.0"
edition = "2021"
publish = false

[dependencies]
evercrypt = "=0.0.11"
hpke-rs = { version = "=0.8.0", features = ["hazmat", "libcrux"] }
