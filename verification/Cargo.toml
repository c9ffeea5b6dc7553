[package]
name = "roas"
version = "0.1.0"
edition = "2021"
publish = false

[dependencies]
enumset = "1"
lazy-regex = "3"
monostate = "0.1"
regex = "1"
serde = { version = "1", features = ["derive"] }
serde_json = "1"
thiserror = "2"
