[package]
name = "cctl"
version = "0.1.0"
edition = "2021"
publish = false

[dependencies]
tokio = { version = "*", features = ["full"] }
serde = { version = "*", features = ["derive"] }
serde_json = "*"
serde_repr = "*"
glob = "*"
axum = { version = "*", features = ["ws"] }
