[package]
name = "adin1110"
version = "0.2.0"
edition = "2021"
publish = false

[dependencies]
heapless = "0.7"
embedded-hal = "1"
embedded-hal-async = "1"
embassy-futures = "*"
embassy-net-driver-channel = "*"
embassy-time = "*"
