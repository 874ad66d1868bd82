[package]
name = "kv_host"
version = "0.1.0"
edition = "2021"
publish = false

[dependencies]
base64 = "*"
wasmparser = "*"
wasm-encoder = "*"
wit-component = "*"

[dev-dependencies]
serde_json = "*"
