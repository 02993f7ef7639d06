[package]
name = "zabbix"
version = "0.1.0"
edition = "2021"
publish = false

[dependencies]
humantime = "*"
chrono = "*"
serde = { version = "*", features = ["derive"] }
serde_json = "*"
