[package]
name = "kaspa_explorer"
version = "0.1.0"
edition = "2021"
publish = false

[dependencies]
anyhow = "1"
axum = { version = "0.7", default-features = false, features = ["http1", "json", "tokio"] }
clap = { version = "4", default-features = false, features = ["derive", "std", "help", "usage", "error-context"] }
env_logger = { version = "0.11", default-features = false }
kaspa-addresses = "2.1.0"
kaspa-hashes = "2.1.1"
log = "0.4"
serde = { version = "1", features = ["derive"] }
tokio = { version = "1", default-features = false, features = ["macros", "net", "rt-multi-thread", "sync", "time"] }
tower-http = { version = "0.5", default-features = false, features = ["cors", "fs"] }
