[package]
name = "model_proxy"
version = "0.1.0"
edition = "2021"
publish = false

[dependencies]
serde_json = "*"
futures = "*"
axum = "*"
tokio = { version = "*", features = ["rt-multi-thread", "net", "macros"] }
reqwest = { version = "*", default-features = false, features = ["stream"] }
tower-http = { version = "*", features = ["cors"] }
serde = { version = "*", features = ["derive"] }
bytes = "*"
http-body-util = "*"
log = "*"
