[package]
name = "pj"
version = "0.1.0"
edition = "2021"
publish = false

[dependencies]
actix-cors = "0.7"
actix-files = "0.6"
actix-web = { version = "4", default-features = false, features = ["macros"] }
crossterm = "0.28"
env_logger = "0.11"
futures = "0.3"
glob = "0.3"
log = "0.4"
r2d2 = "0.8"
r2d2_sqlite = "*"
ratatui = "0.29"
reqwest = { version = "0.12", default-features = false, features = ["json", "stream"] }
rusqlite = { version = "*", features = ["bundled"] }
serde = { version = "1", features = ["derive"] }
serde_json = "1"
tokio = { version = "1", features = ["full"] }
tokio-stream = "0.1"
unicode-width = "0.2"
