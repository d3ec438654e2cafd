[package]
name = "nativechat"
version = "0.1.0"
edition = "2021"
publish = false

[dependencies]
serde = { version = "1", features = ["derive"] }
serde_json = "1"
base64 = "0.22"
futures = "0.3"
tokio = { version = "1", features = ["rt", "macros", "sync", "time", "process"] }
reqwest = { version = "0.12", default-features = false, features = ["json", "cookies", "stream"] }
libc = "0.2"
