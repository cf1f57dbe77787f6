[package]
name = "divoom_monitor"
version = "0.1.0"
edition = "2021"
publish = false

[dependencies]
serde = { version = "*", features = ["derive"] }
serde_json = "*"
sysinfo = "*"
reqwest = { version = "*", default-features = false, features = ["blocking", "json"] }
nvml-wrapper = "*"
base64 = "*"
image = "*"
dotenvy = "*"
