[package]
name = "sshauth"
version = "0.1.0"
edition = "2021"
publish = false

[dependencies]
ssh-key = { version = "0.6", features = ["ed25519"] }
axum = "0.6"
serde = { version = "1", features = ["derive"] }
tokio = { version = "1", features = ["full"] }
