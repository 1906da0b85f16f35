[package]
name = "focuslock"
version = "0.1.0"
edition = "2021"
publish = false

[dependencies]
chrono = { version = "0.4", default-features = false, features = ["clock", "std", "serde"] }
env_logger = { version = "0.11", default-features = false }
log = "0.4"
rusqlite = { version = "*", features = ["bundled"] }
serde = { version = "1", features = ["derive"] }
sysinfo = { version = "0.31", default-features = false, features = ["system"] }
thiserror = "1"
