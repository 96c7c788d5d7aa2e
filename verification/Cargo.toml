[package]
name = "drill_above"
version = "0.1.0"
edition = "2021"
publish = false

[dependencies]
rand = "*"
image = { version = "*", default-features = false, features = ["png"] }
unicode-segmentation = "*"
serde = { version = "*", features = ["derive"] }
serde_json = "*"
clap = { version = "*", features = ["derive"] }
anyhow = "*"

[dev-dependencies]
batbox-la = "*"
