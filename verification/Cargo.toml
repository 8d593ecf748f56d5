[package]
name = "rcc_core"
version = "0.1.0"
edition = "2021"
publish = false

[dependencies]
futures-util = "0.3"
jsonwebtoken = "9"
prost = "0.12"
serde = { version = "1", features = ["derive"] }
serde_json = "1"
sqlx = { version = "0.7", default-features = false, features = ["postgres", "runtime-tokio"] }
tokio = { version = "1", features = ["full"] }
tokio-tungstenite = "0.20"
tonic = "0.10"
tracing-subscriber = "0.3"
wasmtime = "14.0.4"
wasmtime-wasi = "14.0.4"
