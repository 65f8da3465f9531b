[package]
name = "todo_repository"
version = "0.1.0"
edition = "2021"
publish = false

[dependencies]
anyhow = "1"
serde = { version = "1", features = ["derive"] }
thiserror = "1"
validator = { version = "*", features = ["derive"] }
