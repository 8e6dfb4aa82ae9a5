[package]
name = "newsletter_core"
version = "0.1.0"
edition = "2021"
publish = false

[dependencies]
base64 = "*"
markdown = "*"
regex = "*"
slug = "*"
unicode-segmentation = "*"
uuid = { version = "*", features = ["v4"] }
validator = "*"
voca_rs = "*"
