[package]
name = "hoorayhug"
version = "0.1.0"
edition = "2021"
publish = false

[dependencies]
tokio = { version = "1", features = ["io-util", "net", "rt", "time", "macros"] }
log = "0.4"
