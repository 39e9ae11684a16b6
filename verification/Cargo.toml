[package]
name = "multiera"
version = "0.1.0"
edition = "2021"
publish = false

[dependencies]
hex = "0.4"
pallas = "0.18"
sea-orm = { version = "1", default-features = false, features = ["macros"] }
