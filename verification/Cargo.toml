[package]
name = "papertrail_archive"
version = "0.1.0"
edition = "2021"
publish = false

[dependencies]
anyhow = "1"
async-compression = { version = "0.4", features = ["tokio", "gzip"] }
chrono = "0.4"
clap = { version = "4", features = ["derive", "env"] }
csv-async = { version = "1", features = ["tokio"] }
dotenv = "0.15"
futures = "0.3"
lazy_static = "1"
reqwest = { version = "0.12", features = ["stream"] }
serde = { version = "1", features = ["derive"] }
thiserror = "1"
tokio = { version = "1", features = ["full"] }
tokio-stream = { version = "0.1", features = ["time"] }
