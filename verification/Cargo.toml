[package]
name = "chat_demo"
version = "0.1.0"
edition = "2021"
publish = false

[dependencies]
axum = { version = "0.6", features = ["ws"] }
chrono = "0.4"
colored = "2"
dashmap = "5"
futures = "0.3"
mll-axum-utils = "*"
serde_json = "1"
tokio = { version = "1", features = ["macros", "rt-multi-thread", "sync", "time"] }
tower-http = { version = "0.4", features = ["fs"] }
