[package]
name = "mindforge_indexer"
version = "0.1.0"
edition = "2021"
publish = false

[dependencies]
anyhow = "*"
clap = { version = "*", features = ["derive"] }
content_inspector = "*"
ignore = "*"
serde = { version = "*", features = ["derive"] }
serde_json = "*"
