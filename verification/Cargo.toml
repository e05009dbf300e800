[package]
name = "degen_pov"
version = "0.1.0"
edition = "2021"
publish = false

[dependencies]
teloxide = "=0.17.0"
tokio = { version = "=1.53.2", features = ["macros", "rt-multi-thread"] }
axum = "=0.8.9"
reqwest = "=0.12.28"
toml = "=1.1.6"
serde = { version = "=1.0.229", features = ["derive"] }
dptree = "=0.5.1"
log = "=0.4.34"
pretty_env_logger = "=0.5.0"
takecell = "=0.1.1"
thiserror = "=2.0.21"
