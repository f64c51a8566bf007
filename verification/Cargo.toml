[package]
name = "toponn"
version = "0.1.0"
edition = "2021"
publish = false

[dependencies]
serde_cbor = "*"
serde = { version = "*", features = ["derive"] }
toml = "*"
conllx = "*"
finalfusion = "*"
