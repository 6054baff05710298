[package]
name = "route_split"
version = "0.1.0"
edition = "2021"
publish = false

[dependencies]
chrono = "0.4"
serde = { version = "1", features = ["derive"] }
serde_json = "1"
arboard = { version = "3", default-features = false }
image = { version = "0.25", default-features = false, features = ["png"] }
winreg = "0.52"
