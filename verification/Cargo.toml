[package]
name = "ytm-rs"
version = "0.1.0"
edition = "2021"
publish = false

[dependencies]
rand = "0.8"
uuid = { version = "1", features = ["v4"] }
serde = { version = "1", features = ["derive"] }
serde_json = "1"
directories-next = "2"
which = "*"
reqwest = { version = "0.12", default-features = false, features = ["blocking"] }
image = { version = "0.25", default-features = false, features = ["png", "jpeg"] }
