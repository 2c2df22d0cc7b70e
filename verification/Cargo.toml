[package]
name = "floppa_dns"
version = "0.1.0"
edition = "2021"
publish = false

[dependencies]
uuid = { version = "1", features = ["v4"] }
argon2 = "0.5"
tokio = { version = "1", features = ["rt-multi-thread", "net", "macros", "time", "fs", "io-util"] }
axum = "0.8"
sqlx = { version = "0.8", default-features = false, features = ["runtime-tokio", "postgres", "uuid"] }
hickory-server = "0.25"
async-trait = "0.1"
serde = { version = "1", features = ["derive"] }
toml = "0.8"
