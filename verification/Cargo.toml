[package]
name = "heard_browser"
version = "0.1.0"
edition = "2021"
publish = false

[dependencies]
askama_axum = "0.4"
axum = "0.7"
notify = "6"
serde = { version = "1", features = ["derive"] }
tokio = { version = "1", features = ["full"] }
tokio-stream = { version = "0.1", features = ["sync"] }
tower-http = { version = "0.5", features = ["fs"] }
xattr = "1"
