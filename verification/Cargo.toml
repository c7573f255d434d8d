[package]
name = "tsproto"
version = "0.1.0"
edition = "2021"
publish = false

[dependencies]
base64 = "0.13"
num = "0.4"
rand = "0.8"
chrono = "0.4"
tomcrypt = "*"
