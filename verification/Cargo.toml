[package]
name = "undxf"
version = "0.1.0"
edition = "2021"
publish = false

[dependencies]
encoding_rs = "*"
serde = { version = "*", features = ["derive"] }
uncad-model = "*"
