[package]
name = "hangul-conv"
version = "0.1.0"
edition = "2021"
publish = false

[dependencies]
anyhow = "1"
clap = { version = "4", features = ["derive"] }
serde = { version = "1", features = ["derive"] }
unicode-normalization = "0.1"
walkdir = "2"
zip = { version = "2", default-features = false, features = ["deflate"] }
