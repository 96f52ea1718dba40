[package]
name = "vault"
version = "0.1.0"
edition = "2021"
publish = false

[dependencies]
aes-gcm-siv = "*"
rust-argon2 = "*"
ring = "*"
rand = "*"
