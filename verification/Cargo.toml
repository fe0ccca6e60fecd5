[package]
name = "jt"
version = "0.1.0"
edition = "2021"
publish = false

[dependencies]
anyhow = "*"
chrono = "*"
clap = { version = "*", features = ["derive"] }
console = "*"
dialoguer = "*"
dirs = "*"
env_logger = "*"
indicatif = "*"
log = "*"
rand = "0.8"
reqwest = { version = "*", default-features = false, features = ["json"] }
serde = { version = "*", features = ["derive"] }
serde_json = "*"
tokio = { version = "*", features = ["macros", "rt"] }
toml = "*"
