[package]
name = "agents_rs"
version = "0.1.0"
edition = "2021"
publish = false

[dependencies]
serde = { version = "=1.0.229", features = ["derive"] }
serde_json = "=1.0.154"
regex = "=1.13.1"
base64 = "=0.22.1"
bytes = "=1.12.1"
thiserror = "=2.0.21"
tokio = { version = "=1.54.1", features = ["rt-multi-thread", "macros", "sync", "time"] }
tokio-stream = "=0.1.19"
tracing = "=0.1.44"
encoding_rs = "0.8"
llama-cpp-2 = "*"
llama-cpp-sys-2 = "*"
