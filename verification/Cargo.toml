[package]
name = "sup_rs"
version = "0.1.0"
edition = "2021"
publish = false

[dependencies]
chrono = "*"
dashmap = "*"
num_cpus = "*"
tokio = { version = "*", features = ["full"] }
serde = { version = "*", features = ["derive"] }
serde_derive = "*"
toml = "*"
clap = { version = "*", features = ["derive"] }
anyhow = "*"
thiserror = "*"
async-compression = { version = "*", features = ["tokio", "gzip"] }
log = "*"
env_logger = "*"
crossbeam = "*"
crossbeam-utils = "*"
bus = "*"
