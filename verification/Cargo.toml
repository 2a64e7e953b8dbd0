[package]
name = "auth_core"
version = "0.1.0"
edition = "2021"
publish = false

[dependencies]
unicode-segmentation = "=1.13.3"
jsonwebtoken = { version = "=11.1.0", default-features = false, features = ["rust_crypto"] }
serde_json = "=1.0.151"
uuid = { version = "=1.27.0", features = ["v7"] }
argon2 = "=0.6.0"
rand = "=0.8.8"
cookie = "=0.18.2"
axum = "=0.8.9"
axum-extra = { version = "=0.12.6", features = ["typed-header"] }
headers = "=0.4.2"
tokio = { version = "*", features = ["full"] }
chrono = "=0.4.45"
config = "=0.15.27"
serde = { version = "*", features = ["derive"] }
tower-http = { version = "*", features = ["cors"] }
