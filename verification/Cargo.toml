[package]
name = "linzklar"
version = "0.1.0"
edition = "2021"
publish = false

[dependencies]
askama = "*"
big_s = "*"
env_logger = "*"
glob = "*"
lazy_static = "*"
log = "*"
serde = { version = "*", features = ["derive"] }
serde_json = "*"
