[package]
name = "wasm_module_host"
version = "0.1.0"
edition = "2021"
publish = false

[dependencies]
anyhow = "*"
serde = { version = "*", features = ["derive"] }
tokio = { version = "*", features = ["rt-multi-thread", "sync", "macros", "time"] }
toml = "*"
wasmtime = "=48.0.5"
