[package]
name = "delta_kernel"
version = "0.1.0"
edition = "2021"
publish = false

[dependencies]
bytes = "1"
itertools = "0.14"
serde = { version = "1", features = ["derive"] }
serde_json = "1"
tracing = "0.1"
tracing-subscriber = { version = "0.3", default-features = false, features = ["registry", "std"] }
url = "2"
wasm-bindgen = "0.2"
