[package]
name = "filecrypt"
version = "0.1.0"
edition = "2021"
publish = false

[dependencies]
aes = "0.8"
flate2 = "1"
byteorder = "1"
clap = "3.2"

[dev-dependencies]
rand = "0.8"
