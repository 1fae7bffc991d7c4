[package]
name = "recipe_chains"
version = "0.1.0"
edition = "2021"
publish = false

[dependencies]
anyhow = "1"
chrono = "0.4"
indexmap = "2"
itertools = "*"
ratatui = "*"
reqwest = { version = "*", default-features = false }
tokio = { version = "1", features = ["sync"] }
uuid = { version = "1", features = ["v4"] }
