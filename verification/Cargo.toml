[package]
name = "sshell"
version = "0.1.0"
edition = "2021"
publish = false

[dependencies]
anyhow = "1"
portable-pty = "*"
serde = { version = "1", features = ["derive"] }
tokio = { version = "1", features = ["sync"] }
