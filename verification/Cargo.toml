[package]
name = "bootmux"
version = "0.1.0"
edition = "2021"
publish = false

[dependencies]
anyhow = "1"
minijinja = "2"
serde = { version = "1", features = ["derive"] }
serde_json = "1"
serde_norway = "*"
shell-words = "1"
walkdir = "2"
