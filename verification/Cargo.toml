[package]
name = "workspace_db"
version = "0.1.0"
edition = "2021"
publish = false

[dependencies]
anyhow = "1"
rusqlite = { version = "0.28", features = ["bundled"] }
