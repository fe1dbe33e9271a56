[package]
name = "zippy"
version = "0.1.0"
edition = "2021"
publish = false

[dependencies]
crc = "3"
flate2 = "1"
rpassword = "7"
