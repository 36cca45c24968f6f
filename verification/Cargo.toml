[package]
name = "flutter_rust_http"
version = "0.1.0"
edition = "2021"
publish = false

[dependencies]
anyhow = "1"
crossbeam-channel = "0.5"
futures-util = "0.3"
mimalloc = "0.1"
num_cpus = "1"
once_cell = "1"
rand = "0.8"
reqwest = { version = "0.12", default-features = false, features = ["rustls-tls", "http2"] }
serde = { version = "1", features = ["derive"] }
simd-json = "*"
tokio = { version = "1", features = ["rt-multi-thread", "macros", "sync", "time"] }
