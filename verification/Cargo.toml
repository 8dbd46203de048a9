[package]
name = "dotman"
version = "0.1.0"
edition = "2021"
publish = false

[dependencies]
ansi_term = "0.12"
anyhow = "1"
clap = { version = "4", features = ["derive"] }
dirs = "5"
env_logger = "0.10"
ignore = "0.4"
log = "0.4"
once_cell = "1"
serde = { version = "1", features = ["derive"] }
toml = "0.8"
walkdir = "2"
xxhash-rust = { version = "0.8", features = ["xxh32"] }
