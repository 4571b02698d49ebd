[package]
name = "zenjep"
version = "0.1.0"
edition = "2021"
publish = false

[dependencies]
anyhow = "1"
askama = { version = "0.12", features = ["with-tide"] }
askama_tide = "0.15"
async-std = { version = "1", features = ["attributes"] }
clap = "4"
indexmap = "2"
log = "0.4"
serde = { version = "1", features = ["derive"] }
simple_logger = "*"
strict-yaml-rust = "*"
tide = "0.16"
time = { version = "0.3", features = ["macros", "parsing"] }
