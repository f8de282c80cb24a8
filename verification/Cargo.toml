[package]
name = "avh_portal"
version = "0.1.0"
edition = "2021"
publish = false

[dependencies]
serde_json = "1"
serde = "1"
error-chain = "0.12"
maud = { version = "0.26", features = ["rocket"] }
rocket = "0.5"
reqwest = { version = "0.12", default-features = false, features = ["blocking", "rustls-tls"] }
