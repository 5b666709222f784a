[package]
name = "aop-app"
version = "0.1.0"
edition = "2021"
publish = false

[dependencies]
sha2 = "=0.10.9"
flate2 = "=1.1.10"
serde_json = "=1.0.154"
ureq = "=3.5.1"
chrono = "0.4"
