[package]
name = "pumpkin"
version = "0.1.0"
edition = "2021"
publish = false

[dependencies]
log = "*"
rayon = "*"
simple_logger = "*"
tokio = { version = "*", features = ["full"] }
