[package]
name = "animedb"
version = "0.1.0"
edition = "2021"
publish = false

[dependencies]
serde = { version = "1", features = ["derive"] }
serde_json = "1"
reqwest = { version = "0.12", features = ["blocking", "json"] }
rusqlite = { version = "0.32", features = ["bundled"] }
flate2 = "1"
thiserror = "1"
tokio = { version = "1", features = ["rt-multi-thread", "macros"] }
axum = "0.8"
async-graphql = "7"
async-graphql-axum = "7"
