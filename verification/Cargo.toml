[package]
name = "netbird_exporter"
version = "0.1.0"
edition = "2021"
publish = false

[dependencies]
anyhow = "1"
chrono = "0.4"
reqwest = { version = "0.12", default-features = false, features = ["json"] }
rusqlite = { version = "*", features = ["bundled"] }
serde = { version = "1", features = ["derive"] }
serde_json = "1"
tokio = { version = "1", features = ["macros", "rt-multi-thread", "time"] }
tokio-rusqlite = "*"
tracing = "0.1"
tracing-subscriber = { version = "0.3", features = ["env-filter"] }
