[package]
name = "gitfinder"
version = "0.1.0"
edition = "2021"
publish = false

[dependencies]
anyhow = "1"
async-lock = "3"
async-std = { version = "1", features = ["attributes"] }
chrono = "0.4"
clap = { version = "4", features = ["derive"] }
git2 = { version = "*", default-features = false }
