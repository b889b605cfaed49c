[package]
name = "rgit"
version = "0.1.0"
edition = "2021"
publish = false

[dependencies]
anyhow = "1"
askama = "0.11"
axum = { version = "0.6", default-features = false, features = ["query"] }
bytes = "1"
comrak = { version = "0.15", default-features = false }
git2 = { version = "0.15", default-features = false }
moka = { version = "0.9", features = ["future"] }
parking_lot = "0.12"
serde = { version = "1", features = ["derive"] }
syntect = "5"
time = "0.3"
tokio = { version = "1", features = ["rt"] }
tracing = "0.1"
