[package]
name = "episim"
version = "0.1.0"
edition = "2021"
publish = false

[dependencies]
rand = "*"
scoped_threadpool = "*"
serde = { version = "*", features = ["derive"] }
serde_json = "*"
image = { version = "*", default-features = false, features = ["jpeg"] }
