[package]
name = "cowclaw_swarm"
version = "0.1.0"
edition = "2021"
publish = false

[dependencies]
serde = { version = "1", features = ["derive"] }
serde_json = "1"
globset = "0.4"
quick-xml = "0.36"
rusqlite = { version = "0.31", features = ["bundled"] }
chrono = "0.4"
tokio = { version = "1", features = ["rt-multi-thread", "macros", "io-util", "io-std", "process", "time"] }
async-trait = "0.1"
thiserror = "1"
toml = "0.8"
git2 = { version = "0.19", default-features = false }

[dev-dependencies]
tempfile = "3"
