[package]
name = "serde_binary_adv"
version = "1.0.0"
edition = "2021"
publish = false

[dependencies]
num = "0.4"
serde = "1"
