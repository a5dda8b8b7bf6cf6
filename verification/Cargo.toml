[package]
name = "selection-ai-assistant-lib"
version = "0.1.0"
edition = "2021"
publish = false

[dependencies]
serde = { version = "=1.0.229", features = ["derive"] }
serde_json = "=1.0.154"
reqwest = { version = "=0.12.28", default-features = false, features = ["json", "stream", "rustls-tls"] }
uuid = { version = "=1.29.0", features = ["v4"] }
base64 = "=0.22.1"
png = "=0.17.16"
tokio = { version = "=1.54.1", features = ["macros", "rt-multi-thread", "time", "sync"] }
futures-util = "=0.3.34"
dirs = "=5.0.1"
thiserror = "=2.0.21"

[dev-dependencies]
tempfile = "=3.27.0"
