[package]
name = "ktr"
version = "0.1.0"
edition = "2021"
publish = false

[dependencies]
rand = "0.8"
quick_cache = "*"
pnet = "*"
dns-lookup = "*"
rusqlite = { version = "*", features = ["bundled"] }
serde = { version = "*", features = ["derive"] }
serde_json = "*"
serde_path_to_error = "*"
clap = { version = "*", features = ["derive"] }
humantime = "*"
anyhow = "*"
