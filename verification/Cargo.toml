[package]
name = "onitama"
version = "0.1.0"
edition = "2021"
publish = false

[dependencies]
actix = "=0.13.5"
actix-web = { version = "=4.18.1", default-features = false, features = ["ws"] }
actix-web-actors = "=4.3.1"
log = "=0.4.34"
serde = { version = "=1.0.229", features = ["derive"] }
serde_cbor = "=0.11.2"
wasm-bindgen = { version = "=0.2.129", features = ["serde-serialize"] }
wasm-logger = "=0.2.0"
