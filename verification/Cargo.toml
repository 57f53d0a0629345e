[package]
name = "mahjong"
version = "0.1.0"
edition = "2021"
publish = false

[dependencies]
getrandom = "0.3"
rand_chacha = "0.9"
rand_core = "0.9"
serde = { version = "1", features = ["derive"] }
