[package]
name = "opensovd"
version = "0.1.0"
edition = "2021"
publish = false

[dependencies]
async-trait = "0.1"
axum = "0.8"
postcard = { version = "1", features = ["alloc"] }
reqwest = { version = "0.12", default-features = false, features = ["json"] }
serde = { version = "1", features = ["derive"] }
serde_json = "1"
thiserror = "2"
tokio = { version = "1", features = ["rt-multi-thread", "macros", "net", "io-util", "sync"] }
tracing = "0.1"
tracing-subscriber = "0.3"
url = "2"
utoipa = "5"
uuid = { version = "1", features = ["v4"] }
