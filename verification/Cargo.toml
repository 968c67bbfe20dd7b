[package]
name = "rumoca"
version = "0.1.0"
edition = "2021"
publish = false

[dependencies]
anyhow = "1"
parol_runtime = "*"
serde = { version = "1", features = ["derive"] }
