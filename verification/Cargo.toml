[package]
name = "fsf"
version = "0.1.0"
edition = "2021"
publish = false

[dependencies]
itertools = "*"
anyhow = "*"
clap = { version = "*", features = ["derive"] }
walkdir = "*"
