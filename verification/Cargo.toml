[package]
name = "conag"
version = "0.1.0"
edition = "2021"
publish = false

[dependencies]
anyhow = "1"
clap = { version = "4", features = ["derive"] }
dirs = "*"
glob = "0.3"
serde = { version = "1", features = ["derive"] }
toml = "*"
walkdir = "2"
