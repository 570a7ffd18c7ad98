[package]
name = "openmls"
version = "0.1.0"
edition = "2021"
publish = false

[dependencies]
openmls_traits = "0.1"
openmls_rust_crypto = "0.1"
tls_codec = "0.2"
serde = { version = "1", features = ["derive"] }
serde_json = "1"
