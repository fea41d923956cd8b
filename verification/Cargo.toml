[package]
name = "elixir_tree_sitter"
version = "0.1.0"
edition = "2021"
publish = false

[dependencies]
tree-sitter = "=0.20.10"
tree-sitter-css = "=0.20.0"
tree-sitter-html = "=0.20.0"
tree-sitter-javascript = "=0.20.4"
rustler = "=0.29.1"
