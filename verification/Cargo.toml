[package]
name = "jatr"
version = "0.1.0"
edition = "2021"
publish = false

[dependencies]
camino = "*"
clap = { version = "4", features = ["cargo"] }
color-print = "*"
colored = "*"
env_logger = "*"
kdl = "*"
log = "*"
