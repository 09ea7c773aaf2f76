[package]
name = "ident_extract"
version = "0.1.0"
edition = "2021"
publish = false

[dependencies]
streaming-iterator = "*"
tree-sitter = "*"
tree-sitter-c = "*"
tree-sitter-cpp = "*"
tree-sitter-python = "*"
tree-sitter-rust = "*"
