[package]
name = "rudder"
version = "0.1.0"
edition = "2021"
publish = false

[dependencies]
anyhow = "*"
axum = "*"
base64 = "*"
clap = { version = "*", features = ["derive", "env"] }
dotenvy = "*"
idna = "*"
igd-next = "*"
reqwest = { version = "*", default-features = false, features = ["json"] }
serde_json = "*"
tokio = { version = "*", features = ["macros", "rt", "time", "net"] }
tracing = "*"
tracing-subscriber = { version = "*", features = ["env-filter"] }
