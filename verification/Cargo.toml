[package]
name = "rustynet"
version = "0.1.0"
edition = "2021"
publish = false

[dependencies]
async-std = "1"
flate2 = "1"
httpdate = "1"
indexmap = "2"
serde = { version = "1", features = ["derive"] }
toml = "0.8"
