[package]
name = "embed_js"
version = "0.1.0"
edition = "2021"
publish = false

[dependencies]
cpp_syn = { version = "=0.12.0", features = ["full", "visit"] }
cpp_synmap = "=0.3.0"
parity-wasm = "=0.45.0"
quote = "=0.3.15"
serde = { version = "=1.0.229", features = ["derive"] }
serde_derive = "=1.0.229"
serde_json = "=1.0.154"
