[package]
name = "smtp_proto"
version = "0.1.0"
edition = "2021"
publish = false

[dependencies]
rkyv = "0.8"
serde = { version = "1", features = ["derive"] }
