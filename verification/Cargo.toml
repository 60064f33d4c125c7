[package]
name = "dgmeets"
version = "0.1.0"
edition = "2021"
publish = false

[dependencies]
anyhow = "1"
chrono = { version = "0.4", default-features = false, features = ["std", "now"] }
cpal = "0.15"
dirs = "6"
futures = { version = "0.3", default-features = false, features = ["std", "executor"] }
hound = "3.5"
serde = { version = "1", features = ["derive"] }
serde_json = "1"
tokio = { version = "1", default-features = false, features = ["rt", "sync", "time"] }
uuid = { version = "1", default-features = false, features = ["std", "v4"] }
