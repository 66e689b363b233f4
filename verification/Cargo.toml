[package]
name = "hashring"
version = "0.1.0"
edition = "2021"
publish = false

[dependencies]
siphasher = "*"
parking_lot = "*"
clap = { version = "*", features = ["derive"] }
anyhow = "*"
