[package]
name = "initiative"
version = "0.1.0"
edition = "2021"
publish = false

[dependencies]
caith = "4"
rand = "0.8"
serde = { version = "1", features = ["derive"] }
termion = "*"
uuid = { version = "1", features = ["v4"] }
