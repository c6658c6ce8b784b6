[package]
name = "pi_estimator"
version = "0.1.0"
edition = "2021"
publish = false

[dependencies]
axum = "*"
bytes = "1"
rand = "0.9"
serde = { version = "1", features = ["derive"] }
tokio = { version = "1", features = ["sync", "rt-multi-thread", "macros", "net"] }
tokio-stream = "*"
tower-http = { version = "*", features = ["fs"] }
