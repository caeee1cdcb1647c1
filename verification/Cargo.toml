[package]
name = "kremory"
version = "0.1.0"
edition = "2021"
publish = false

[dependencies]
anyhow = "1"
async-trait = "0.1"
autoagents-llm = "0.3.7"
base64 = "0.22"
bumpalo = "3"
chrono = "0.4"
dashmap = "6"
libsql = { version = "*", default-features = false, features = ["core"] }
metrics = "0.24"
serde = { version = "1", features = ["derive"] }
serde_json = "1"
text-splitter = "*"
thiserror = "2"
tokio = { version = "1", features = ["rt", "rt-multi-thread", "time"] }
tracing = "0.1"
uuid = { version = "1", features = ["v4"] }
