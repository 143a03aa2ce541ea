[package]
name = "dante_control"
version = "0.1.0"
edition = "2021"
publish = false

[dependencies]
ascii = "*"
bytes = "*"
hex = "*"
log = "*"
mdns-sd = "*"
thiserror = "*"
