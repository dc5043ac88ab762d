[package]
name = "codebase_index"
version = "0.1.0"
edition = "2021"
publish = false

[dependencies]
anyhow = "1"
async-recursion = "1"
chonkier = "*"
chrono = "0.4"
clearscreen = "*"
dotenv = "0.15"
futures = "0.3"
governor = "*"
ignore = "0.4"
indicatif = "*"
lazy_static = "1"
reqwest = { version = "0.12", features = ["json"] }
serde_json = "1"
tokio = { version = "1", features = ["full"] }
tokio-stream = "0.1"
tree-sitter = "*"
tree-sitter-c = "*"
tree-sitter-cpp = "*"
tree-sitter-javascript = "*"
tree-sitter-python = "*"
tree-sitter-rust = "*"
tree-sitter-typescript = "*"
tree-sitter-zig = "*"
