[package]
name = "treesitter_mcp"
version = "0.1.0"
edition = "2021"
publish = false

[dependencies]
tree-sitter = "=0.27.1"
tree-sitter-language = "=0.1.9"
tree-sitter-rust = "=0.24.2"
tree-sitter-python = "=0.25.0"
tree-sitter-javascript = "=0.25.0"
tree-sitter-typescript = "=0.23.2"
tree-sitter-html = "=0.23.2"
tree-sitter-css = "=0.25.0"
tree-sitter-swift = "=0.7.4"
tree-sitter-c-sharp = "=0.23.5"
tree-sitter-java = "=0.23.5"
tree-sitter-go = "=0.25.0"
tree-sitter-haskell = "=0.23.1"
streaming-iterator = "=0.1.9"
tiktoken-rs = "=0.12.1"
serde = { version = "=1.0.229", features = ["derive"] }
serde_json = "=1.0.154"
globset = "=0.4.21"
regex = "=1.13.1"
