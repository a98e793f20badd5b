[package]
name = "symbol_picker"
version = "0.1.0"
edition = "2021"
publish = false

[dependencies]
anyhow = "1"
log = "0.4"
tree-sitter = "0.25"
tree-sitter-tags = "0.25"
url = "2"

[dev-dependencies]
tree-sitter-rust = "0.24"
