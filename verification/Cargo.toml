[package]
name = "four_code"
version = "0.1.0"
edition = "2021"
publish = false

[dependencies]
ropey = { version = "*", default-features = false }
tree-sitter = "*"
tree-sitter-highlight = "*"
tree-sitter-bash = "*"
tree-sitter-css = "*"
tree-sitter-html = "*"
tree-sitter-javascript = "*"
tree-sitter-json = "*"
tree-sitter-md = "*"
tree-sitter-php = "*"
tree-sitter-rust = "*"
tree-sitter-toml-ng = "*"
tree-sitter-typescript = "*"
tree-sitter-yaml = "*"
anyhow = "*"
arboard = { version = "*", default-features = false }
crossterm = "0.28"
ratatui = "*"
thiserror = "*"
tracing = "*"
tracing-subscriber = { version = "*", features = ["env-filter"] }
