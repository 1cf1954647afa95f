[package]
name = "ria_lv2"
version = "0.1.0"
edition = "2021"
publish = false

[dependencies]
biquad = "*"
fs2 = "*"
lv2 = { version = "*", features = ["lv2-worker"] }
serde = { version = "*", features = ["derive"] }
serde_json = "*"
