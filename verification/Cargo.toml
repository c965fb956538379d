[package]
name = "atars"
version = "0.1.0"
edition = "2021"
publish = false

[dependencies]
coffee = { version = "*", features = ["opengl"] }
