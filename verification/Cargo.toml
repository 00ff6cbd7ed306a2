[package]
name = "homectl"
version = "0.1.0"
edition = "2021"
publish = false

[dependencies]
anyhow = "1"
async-std = "1"
async-trait = "0.1"
chrono = { version = "0.4", default-features = false, features = ["clock", "std"] }
color-eyre = { version = "0.6", default-features = false }
eyre = "0.6"
hex = "0.4"
hmac = "0.12"
once_cell = "1"
palette = "0.6"
serde = { version = "1", features = ["derive"] }
serde_json = "1"
serde_repr = "0.1"
sha2 = "0.10"
sqlx = { version = "0.7", default-features = false, features = ["runtime-tokio", "postgres"] }
surf = { version = "2", default-features = false, features = ["h1-client-rustls"] }
tokio = { version = "1", features = ["rt-multi-thread", "sync", "time"] }
warp = { version = "0.3", default-features = false, features = ["websocket"] }
