[package]
name = "ducklink_host"
version = "0.1.0"
edition = "2021"
publish = false

[dependencies]
serde_json = "=1.0.154"
anyhow = "=1.0.104"
dirs = "=7.0.0"
wasmtime = "46"
wasmtime-wasi = "46"
wasmtime-wasi-http = "46"
