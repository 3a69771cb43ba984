[package]
name = "zetta"
version = "0.1.0"
edition = "2021"
publish = false

[dependencies]
anyhow = "=1.0.104"
argon2 = "=0.5.3"
getrandom = "=0.3.4"
indexmap = { version = "=2.14.2", features = ["serde"] }
libc = "=0.2.191"
serde = { version = "=1.0.229", features = ["derive"] }
serde_json = "=1.0.154"
serde_json_lenient = "=0.2.4"
subtle = "=2.6.1"
sysinfo = "=0.40.1"
tempfile = "=3.27.0"
url = "=2.5.8"
zeroize = "=1.9.1"
