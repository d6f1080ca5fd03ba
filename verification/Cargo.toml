[package]
name = "cage"
version = "0.1.0"
edition = "2021"
publish = false

[dependencies]
age = { version = "0.10", features = ["ssh"] }
md5 = "0.7"
chrono = "0.4"
serde = { version = "1", features = ["derive"] }
serde_json = "1"
toml = "0.8"
tempfile = "3"
thiserror = "1"
rpassword = "7"
libc = "0.2"
portable-pty = "0.8"
