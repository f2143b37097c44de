[package]
name = "executable_runner"
version = "0.1.0"
edition = "2021"
publish = false

[dependencies]
log = "=0.4.34"
rfd = { version = "=0.17.2", default-features = false, features = ["xdg-portal"] }
serde = { version = "=1.0.229", features = ["derive"] }
serde_json = "=1.0.154"
