[package]
name = "localsend_core"
version = "0.1.0"
edition = "2021"
publish = false

[dependencies]
uuid = { version = "*", features = ["v4"] }
md5 = "*"
mime_guess = "*"
pathdiff = "*"
linked-hash-map = "*"
serde = { version = "*", features = ["derive"] }
serde_json = "*"
tokio = { version = "*", features = ["full"] }
tokio-util = { version = "*", features = ["io"] }
axum = "*"
reqwest = { version = "*", default-features = false, features = ["json", "stream"] }
clap = { version = "*", features = ["derive", "env"] }
walkdir = "*"
futures-util = "*"
async-stream = "*"
hostname = "*"
ctrlc = "*"
