[package]
name = "exchange_core"
version = "0.1.0"
edition = "2021"
publish = false

[dependencies]
sha2 = "0.10"
anyhow = "1"
configparser = "3"
polling = "3"
socket2 = "0.5"
