[package]
name = "netreport"
version = "0.1.0"
edition = "2021"
publish = false

[dependencies]
if-addrs = "*"
serde = { version = "*", features = ["derive"] }
