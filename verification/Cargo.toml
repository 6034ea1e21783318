[package]
name = "kanban_core"
version = "0.1.0"
edition = "2021"
publish = false

[dependencies]
serde_json = "1"
url = "2"
chrono = { version = "0.4", features = ["serde"] }
mime_guess = "2"
serde = { version = "1", features = ["derive"] }
tokio = { version = "1", features = ["full"] }
tokio-util = "0.7"
async-trait = "0.1"
axum = "0.8"
backon = { version = "1", features = ["tokio-sleep"] }
uuid = { version = "1", features = ["v4", "serde"] }
dirs = "6"
tempfile = "3"
thiserror = "2"
tracing = "0.1"
command-group = { version = "5", features = ["with-tokio"] }
futures = "0.3"
codex-protocol = "*"
