[package]
name = "spite"
version = "0.1.0"
edition = "2021"
publish = false

[dependencies]
chrono = "0.4"
zstd = "0.13"
xxhash-rust = { version = "0.8", features = ["xxh3"] }
serde = { version = "1", features = ["derive"] }
serde_json = "1"
tree-sitter = "0.24"
tree-sitter-typescript = "0.23"
walkdir = "2"
pathdiff = "0.2"
rusqlite = { version = "0.32", features = ["bundled"] }
thiserror = "2"
miette = "7"
