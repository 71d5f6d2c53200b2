[package]
name = "logbench"
version = "0.1.0"
edition = "2021"
publish = false

[dependencies]
anyhow = "*"
flate2 = "*"
indicatif = "*"
rand = "*"
serde = { version = "*", features = ["derive"] }
serde_json = "*"
zstd = "*"
