[package]
name = "ctb_core"
version = "0.1.0"
edition = "2021"
publish = false

[dependencies]
serde_json = "*"
zip = "*"
tar = "*"
flate2 = "*"
sha2 = "*"
chrono = "*"
