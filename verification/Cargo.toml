[package]
name = "editor_core"
version = "0.1.0"
edition = "2021"
publish = false

[dependencies]
ropey = "1"
tree-sitter-highlight = "0.20"
tree-sitter-rust = "0.20"
tree-sitter-toml = "0.20"
crossterm = "0.22"
cli-clipboard = "*"
undo = "*"
serde = { version = "1", features = ["derive"] }
serde_yaml = "0.8"
