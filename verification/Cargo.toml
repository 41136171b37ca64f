[package]
name = "discord_bot"
version = "0.1.0"
edition = "2021"
publish = false

[dependencies]
rand = "0.8"
chrono = "0.4"
dotenv = "0.15"
tokio = { version = "1", features = ["macros", "rt-multi-thread", "signal"] }
serenity = { version = "=0.10.10", default-features = false, features = ["builder", "cache", "client", "framework", "gateway", "http", "model", "standard_framework", "utils", "rustls_backend", "voice"] }
songbird = "=0.2.2"
rspotify = { version = "=0.11.6", default-features = false, features = ["client-ureq", "ureq-rustls-tls"] }
genius_lyrics = "=1.0.4"
