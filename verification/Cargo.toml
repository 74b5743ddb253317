[package]
name = "bitplane"
version = "0.1.0"
edition = "2021"
publish = false

[dependencies]
toml_edit = "*"
serde = { version = "1", features = ["derive"] }
serde_json = "1"
clap = { version = "4", features = ["derive"] }
libc = "0.2"
