[package]
name = "forge_backup"
version = "0.1.0"
edition = "2021"
publish = false

[dependencies]
clap = { version = "4", features = ["derive"] }
dirs = "5"

[dev-dependencies]
regex = "1"
