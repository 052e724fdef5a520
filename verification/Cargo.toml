[package]
name = "sql_bridge"
version = "0.1.0"
edition = "2021"
publish = false

[dependencies]
sqlx = { version = "0.8", default-features = false, features = ["runtime-tokio", "sqlite", "migrate", "json"] }
tokio = { version = "1", default-features = false, features = ["rt-multi-thread", "sync"] }
serde = { version = "1", features = ["derive"] }
serde_json = "1"
indexmap = "2"
thiserror = "1"
futures-core = "0.3"
