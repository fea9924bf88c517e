[package]
name = "vortex"
version = "0.1.0"
edition = "2021"
publish = false

[dependencies]
walkdir = "*"
zip = "*"
serde = { version = "*", features = ["derive"] }
serde_json = "*"
reqwest = { version = "*", default-features = false, features = ["json", "rustls-tls"] }
sqlx = { version = "*", default-features = false, features = ["runtime-tokio", "sqlite"] }
tokio = { version = "*", features = ["rt-multi-thread", "macros"] }
