[package]
name = "blockdedup"
version = "0.1.0"
edition = "2021"
publish = false

[dependencies]
btrfs = "*"
crc64fast = "*"
clap = { version = "*", features = ["derive"] }
rayon = "*"
tracing = "*"
tracing-subscriber = "*"
walkdir = "*"
