[package]
name = "bili_sync"
version = "0.1.0"
edition = "2021"
publish = false

[dependencies]
anyhow = "=1.0.104"
async-trait = "=0.1.92"
chrono = "=0.4.45"
futures = "=0.3.34"
html-escape = "=0.2.15"
rand = "=0.8.8"
reqwest = { version = "=0.12.28", default-features = false, features = ["json"] }
sea-orm = { version = "=1.1.20", default-features = false, features = ["macros", "with-json", "with-chrono", "sqlx-sqlite", "runtime-tokio"] }
sea-orm-migration = { version = "=1.1.20", default-features = false }
serde = { version = "=1.0.229", features = ["derive"] }
serde_json = "=1.0.154"
tokio = { version = "=1.54.1", features = ["rt", "macros", "time", "sync", "fs"] }
tokio-util = "=0.7.20"
tracing = "=0.1.44"
