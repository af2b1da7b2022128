[package]
name = "embed_server"
version = "0.1.0"
edition = "2021"
publish = false

[dependencies]
scraper = "*"
ego-tree = "*"
heck = "*"
serde = { version = "*", features = ["derive"] }
serde_json = "*"
