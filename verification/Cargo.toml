[package]
name = "moho"
version = "0.1.0"
edition = "2021"
publish = false

[dependencies]
sha2 = "=0.10.9"
k256 = "=0.13.4"
borsh = { version = "=1.8.1", features = ["derive"] }
