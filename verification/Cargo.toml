[package]
name = "wasm-link"
version = "0.1.0"
edition = "2021"
publish = false

[dependencies]
wasmtime = "=47.0.4"
futures = "=0.3.34"
