[package]
name = "spire_build"
version = "0.1.0"
edition = "2021"
publish = false

[dependencies]
async-trait = "0.1"
regex = "1"
serde = { version = "1", features = ["derive"] }
serde_json = "1"
sha2 = "0.10"
tokio = { version = "1", features = ["io-util", "macros", "process", "rt", "sync", "time"] }
tracing = "0.1"
tree-sitter = "0.25"
tree-sitter-cpp = "0.23"
tree-sitter-rust = "0.24"
walkdir = "2"
