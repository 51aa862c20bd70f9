[package]
name = "quick_command"
version = "0.1.0"
edition = "2021"
publish = false

[dependencies]
serde = { version = "1", features = ["derive"] }
serde_json = "1"
shell-words = "1"
uuid = { version = "1", features = ["v4"] }
