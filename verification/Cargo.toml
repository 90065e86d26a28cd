[package]
name = "gatt_descriptors"
version = "0.1.0"
edition = "2021"
publish = false

[dependencies]
embedded-svc = "*"
