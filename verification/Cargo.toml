[package]
name = "feverish"
version = "0.1.0"
edition = "2021"
publish = false

[dependencies]
rand = "*"
ron = "*"
serde = { version = "*", features = ["derive"] }
