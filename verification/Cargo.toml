[package]
name = "cluddy"
version = "0.1.0"
edition = "2021"
publish = false

[dependencies]
base64 = "0.22"
image = { version = "0.25", default-features = false, features = ["jpeg"] }
serde = { version = "1", features = ["derive"] }
serde_json = "1"
reqwest = { version = "0.12", default-features = false, features = ["json", "rustls-tls"] }
tokio = { version = "1", features = ["rt-multi-thread", "macros", "fs", "process", "time", "net", "sync"] }
axum = "0.7"
chrono = "0.4"
uuid = { version = "1", features = ["v4"] }
dotenvy = "0.15"
arboard = { version = "3", default-features = false }
winapi = { version = "0.3", features = ["winuser", "windef"] }
