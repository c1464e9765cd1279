[package]
name = "asm_viewer"
version = "0.1.0"
edition = "2021"
publish = false

[dependencies]
tree-sitter = "*"
tree-sitter-asm = "*"
streaming-iterator = "*"
toml = "*"
