[package]
name = "glyph"
version = "0.1.0"
edition = "2021"
publish = false

[dependencies]
jsonschema = { version = "*", default-features = false }
serde_json = "1"
serde = { version = "1", features = ["derive"] }
tokio = { version = "1", features = ["rt-multi-thread", "macros", "io-std", "io-util", "net", "time", "process", "fs", "sync"] }
tokio-stream = "0.1"
tokio-tungstenite = "*"
futures-util = "0.3"
url = "2"
reqwest = { version = "*", default-features = false }
clap = { version = "4", features = ["derive"] }
tracing = "0.1"
tracing-subscriber = "0.3"
async-trait = "0.1"
anyhow = "1"
thiserror = "*"
toml = "*"
dirs = "*"
chrono = { version = "0.4", default-features = false, features = ["clock"] }
