[package]
name = "blurhasher"
version = "0.1.0"
edition = "2021"
publish = false

[dependencies]
base64 = "0.13"
blurhash = "0.1"
clap = { version = "3", features = ["derive"] }
image = "0.24"
