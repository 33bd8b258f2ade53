[package]
name = "async-lsp"
version = "0.1.0"
edition = "2021"
publish = false

[dependencies]
either = "1"
futures = { version = "0.3", default-features = false, features = ["std"] }
lsp-types = "0.95"
serde = { version = "1", features = ["derive"] }
serde_json = "1"
tower-layer = "0.3"
tower-service = "0.3"
