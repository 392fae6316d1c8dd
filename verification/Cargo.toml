[package]
name = "genie_rec"
version = "0.1.0"
edition = "2021"
publish = false

[dependencies]
genie-scx = "*"
genie-support = "*"
byteorder = "*"
