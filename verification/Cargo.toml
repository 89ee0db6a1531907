[package]
name = "vless_relay"
version = "0.1.0"
edition = "2021"
publish = false

[dependencies]
uuid = "=1.27.0"
bytes = "=1.12.1"
futures = "=0.3.34"
tokio = { version = "=1.53.2", default-features = false, features = ["io-util", "macros"] }
worker = "=0.8.7"
wasm-bindgen-futures = "=0.4.79"
