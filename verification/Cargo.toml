[package]
name = "cantsyn"
version = "0.1.0"
edition = "2021"
publish = false

[dependencies]
socketcan = { version = "3", default-features = false }
