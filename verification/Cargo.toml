[package]
name = "zirconium"
version = "0.1.0"
edition = "2021"
publish = false

[dependencies]
bytes = "1"
regex = "1"
log = "0.4"
simple_logger = "*"
tokio = { version = "1", features = ["net", "io-util", "macros", "rt-multi-thread"] }
