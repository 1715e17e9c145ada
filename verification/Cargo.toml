[package]
name = "rust_multiplayer"
version = "0.1.0"
edition = "2021"
publish = false

[dependencies]
rand = "0.9"
chrono = "0.4"
serde = { version = "1", features = ["derive"] }
serde_json = "1"
tokio = { version = "1", features = ["rt-multi-thread", "net", "io-util", "sync", "time", "macros"] }
log = "0.4"
env_logger = "0.11"
clap = { version = "4", features = ["derive"] }
ctrlc = "3"
thiserror = "2"
