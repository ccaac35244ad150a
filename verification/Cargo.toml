[package]
name = "yagami-decryption-agency"
version = "0.1.0"
edition = "2021"
publish = false

[dependencies]
clap = { version = "3.2", features = ["derive"] }
dialoguer = "0.10"
indicatif = "0.17"
press-btn-continue = "*"
spinners = "4"
