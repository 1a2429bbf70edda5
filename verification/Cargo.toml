[package]
name = "ipfs_proxy"
version = "0.1.0"
edition = "2021"
publish = false

[dependencies]
rust-argon2 = "*"
rand = "0.8"
uuid = { version = "*", features = ["v4"] }
chrono = "*"
serde = { version = "*", features = ["derive"] }
serde_json = "*"
reqwest = { version = "*", default-features = false, features = ["blocking"] }
