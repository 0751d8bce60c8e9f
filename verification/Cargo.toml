[package]
name = "rustymail"
version = "0.1.0"
edition = "2021"
publish = false

[dependencies]
serde = { version = "1", features = ["derive"] }
serde_json = "1"
icalendar = "0.16"
quick-xml = "0.37"
uuid = { version = "1", features = ["v4"] }
urlencoding = "2"
chrono = "0.4"
dirs = "5"
tokio = { version = "1", features = ["rt", "macros", "sync"] }
sqlx = { version = "0.8", default-features = false, features = ["sqlite", "runtime-tokio", "macros"] }
reqwest = { version = "0.12", default-features = false, features = ["json"] }
tracing = "0.1"
