[package]
name = "host_monitor"
version = "0.1.0"
edition = "2021"
publish = false

[dependencies]
sysinfo = { version = "*", default-features = false, features = ["system"] }
