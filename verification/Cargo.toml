[package]
name = "okane"
version = "0.1.0"
edition = "2021"
publish = false

[dependencies]
rust_decimal = "1"
chrono = "0.4"
regex = "1"
pretty_decimal = "*"
unicode-width = "*"
path-slash = "0.2"
csv = "1"
quick-xml = { version = "*", features = ["serialize"] }
serde = { version = "1", features = ["derive"] }
serde_yaml = "0.9"
encoding_rs = "0.8"
encoding_rs_io = "0.1"
clap = { version = "4", features = ["derive"] }
env_logger = "*"
log = "0.4"
