[package]
name = "sundownd"
version = "0.4.56"
edition = "2021"
publish = false

[dependencies]
libc = "0.2"
