[package]
name = "regin"
version = "0.1.0"
edition = "2021"
publish = false

[dependencies]
serde_json = "1"
serde = { version = "1", features = ["derive"] }
chrono = "0.4"
anyhow = "1"
rusqlite = "*"
toml = "*"
uuid = { version = "1", features = ["v4"] }
dirs = "*"
tokio = { version = "1", features = ["rt-multi-thread", "macros", "net", "io-util", "process", "time", "fs", "io-std"] }
clap = { version = "4", features = ["derive"] }
clap_mangen = "*"
crossterm = "*"
async-trait = "*"
tracing = "*"
tracing-subscriber = { version = "*", features = ["env-filter"] }
