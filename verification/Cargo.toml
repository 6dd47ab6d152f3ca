[package]
name = "sql"
version = "0.1.0"
edition = "2021"
publish = false

[dependencies]
bincode = "=1.3.3"
chrono = { version = "=0.4.45", features = ["serde"] }
ordered-float = { version = "=5.5.1", features = ["serde"] }
regex = "=1.13.1"
serde = { version = "=1.0.229", features = ["derive"] }
thiserror = "=2.0.21"
