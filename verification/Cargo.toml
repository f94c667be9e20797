[package]
name = "runner"
version = "0.1.0"
edition = "2021"
publish = false

[dependencies]
sqlx = { version = "0.8", default-features = false, features = ["postgres", "runtime-tokio"] }
axum = "0.8"
hyper-util = { version = "0.1", features = ["server-auto", "tokio", "service"] }
rustls = { version = "0.23", default-features = false, features = ["ring", "std", "logging", "tls12"] }
tokio-rustls = { version = "0.26", default-features = false, features = ["ring", "logging", "tls12"] }
rustls-pemfile = "2"
serde = { version = "1", features = ["derive"] }
serde_json = "1"
serde_yaml = "0.9"
tokio = { version = "1", features = ["full"] }
time = { version = "0.3", features = ["formatting"] }
