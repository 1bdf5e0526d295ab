[package]
name = "steven_protocol"
version = "0.1.0"
edition = "2021"
publish = false

[dependencies]
aes = "*"
cfb8 = "*"
flate2 = "*"
serde_json = "*"
reqwest = { version = "*", default-features = false, features = ["blocking"] }
