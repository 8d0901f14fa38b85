[package]
name = "ruix_dashboard"
version = "0.1.0"
edition = "2021"
publish = false

[dependencies]
sysinfo = "0.32"
chrono = { version = "0.4", default-features = false, features = ["clock"] }
