[package]
name = "neochess"
version = "0.1.0"
edition = "2021"
publish = false

[dependencies]
shakmaty = "=0.29.4"
pgcopy = "=0.0.2"
chrono = "=0.4.45"
tokio = { version = "=1.53.2", features = ["full"] }
serde = { version = "=1.0.229", features = ["derive"] }
reqwest = { version = "=0.12.28", default-features = false, features = ["json"] }
reqwest-middleware = "=0.4.2"
reqwest-retry = "=0.7.0"
sqlx = { version = "=0.8.6", default-features = false, features = ["runtime-tokio", "postgres", "chrono", "uuid", "migrate"] }
uuid = { version = "=1.27.0", features = ["v4"] }
anyhow = "=1.0.104"
thiserror = "=2.0.21"
rayon = "=1.12.0"
