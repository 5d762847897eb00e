[package]
name = "meme_lobby"
version = "0.1.0"
edition = "2021"
publish = false

[dependencies]
uuid = { version = "*", features = ["v4"] }
anyhow = "*"
axum = "*"
serde = { version = "*", features = ["derive"] }
tinytemplate = "*"
tokio = { version = "*", features = ["full"] }
tower-http = { version = "*", features = ["fs"] }
tower-sessions = "*"
