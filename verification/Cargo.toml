[package]
name = "tagger"
version = "0.1.0"
edition = "2021"
publish = false

[dependencies]
rspotify = { version = "*", default-features = false, features = ["client-reqwest", "reqwest-rustls-tls"] }
axum = "0.7"
tokio = { version = "1", features = ["full"] }
sqlx = { version = "0.8", default-features = false, features = ["sqlite", "runtime-tokio"] }
askama = { version = "0.12", features = ["with-axum"] }
askama_axum = "0.4"
serde = { version = "1", features = ["derive"] }
serde_urlencoded = "0.7"
dotenvy = "0.15"
anyhow = "1"
futures-util = "0.3"
