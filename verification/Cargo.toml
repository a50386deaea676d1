[package]
name = "godot_neovim"
version = "0.1.0"
edition = "2021"
publish = false

[dependencies]
async-trait = "0.1"
godot = "*"
lsp-types = "0.95"
nvim-rs = { version = "0.9", features = ["use_tokio"] }
rmpv = "1"
serde = { version = "1", features = ["derive"] }
serde_json = "1"
tokio = { version = "1", features = ["full"] }
