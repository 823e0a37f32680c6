[package]
name = "eden_explorer"
version = "0.1.0"
edition = "2021"
publish = false

[dependencies]
serde = { version = "=1.0.229", features = ["derive"] }
toml = "=0.8.23"
dirs = "=5.0.1"
bincode = "=1.3.3"
postcard = { version = "=1.1.3", features = ["alloc"] }
sys-locale = "*"
