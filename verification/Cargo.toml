[package]
name = "sov_state"
version = "0.1.0"
edition = "2021"
publish = false

[dependencies]
anyhow = "=1.0.104"
borsh = "=1.8.1"
hex = "=0.4.3"
jmt = { version = "=0.12.0", features = ["mocks"] }
sha2 = "=0.10.9"
