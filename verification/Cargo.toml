[package]
name = "hq"
version = "0.1.0"
edition = "2021"
publish = false

[dependencies]
kuchikiki = "*"
url = "*"
serde_json = "*"
clap = { version = "*", features = ["derive"] }
