[package]
name = "pomodoro"
version = "0.1.0"
edition = "2021"
publish = false

[dependencies]
serde_json = { version = "1", features = ["preserve_order"] }
serde = { version = "1", features = ["derive"] }
getrandom = "0.3"
minreq = { version = "2", features = ["https"] }
tiny_http = "0.12"
