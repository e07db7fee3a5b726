[package]
name = "roguelike_core"
version = "0.1.0"
edition = "2021"
publish = false

[dependencies]
rand = "0.8"
serde = { version = "1", features = ["derive"] }
serde_json = "1"
configparser = "3"
log = "0.4"
simple_logger = "4"
