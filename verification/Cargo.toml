[package]
name = "eve_pi"
version = "0.1.0"
edition = "2021"
publish = false

[dependencies]
console_error_panic_hook = "*"
serde = { version = "1", features = ["derive"] }
serde-wasm-bindgen = "*"
serde_json = "1"
tracing = "0.1"
tracing-subscriber = { version = "*", features = ["env-filter"] }
tracing-wasm = "*"
wasm-bindgen = "*"
wee_alloc = "*"
