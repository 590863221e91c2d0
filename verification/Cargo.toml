[package]
name = "namegen"
version = "0.1.0"
edition = "2021"
publish = false

[dependencies]
bincode = "2"
rand = "0.9"
serde = { version = "1", features = ["derive"] }
smallvec = "1"
