[package]
name = "gcd_server"
version = "0.1.0"
edition = "2021"
publish = false

[dependencies]
iron = "0.6"
mime = "0.2"
router = "0.6"
urlencoded = "0.6"
