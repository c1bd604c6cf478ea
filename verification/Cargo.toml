[package]
name = "glos"
version = "0.1.0"
edition = "2021"
publish = false

[dependencies]
crc32fast = "*"
lz4_flex = "*"
clap = { version = "*", features = ["derive"] }
crossbeam-channel = "*"
ctrlc = "*"
log = "*"
env_logger = "*"
