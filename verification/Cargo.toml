[package]
name = "unitree_webrtc_connect_rs"
version = "0.1.0"
edition = "2021"
publish = false

[dependencies]
aes = "=0.8.4"
aes-gcm = "=0.10.3"
base64 = "=0.22.1"
hex = "=0.4.3"
lz4_flex = "=0.11.6"
md-5 = "=0.10.6"
rand = "=0.8.8"
rsa = "=0.9.10"
uuid = { version = "=1.29.0", features = ["v4"] }
serde = { version = "=1.0.229", features = ["derive"] }
serde_json = "=1.0.154"
tokio = { version = "=1.54.1", features = ["rt-multi-thread", "macros", "sync", "time"] }
reqwest = { version = "=0.12.28", default-features = false }
pyo3 = "=0.22.6"
numpy = "=0.22.1"
ndarray = "=0.16.1"
wasmtime = { version = "=43.0.2", default-features = false, features = ["cranelift", "runtime"] }
