[package]
name = "typefree"
version = "0.1.0"
edition = "2021"
publish = false

[dependencies]
serde_json = "*"
uuid = { version = "*", features = ["v4"] }
serde = { version = "*", features = ["derive"] }
log = "*"
env_logger = "*"
tokio = { version = "*", features = ["rt-multi-thread", "macros", "time", "sync"] }
tokio-tungstenite = "*"
futures-util = "*"
http = "*"
reqwest = { version = "*", default-features = false, features = ["json"] }
cpal = "*"
rubato = "*"
