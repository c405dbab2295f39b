[package]
name = "deltakernel"
version = "0.1.0"
edition = "2021"
publish = false

[dependencies]
arrow-array = "*"
arrow-json = "*"
arrow-schema = "*"
url = "*"
