[package]
name = "docker_db_container_login"
version = "0.1.0"
edition = "2021"
publish = false

[dependencies]
anyhow = "=1.0.104"
clap = { version = "=4.6.7", features = ["derive"] }
dialoguer = "=0.11.0"
directories = "=6.0.0"
env_logger = "=0.11.11"
serde = { version = "=1.0.229", features = ["derive"] }
serde_yaml = "=0.9.34"
shell-escape = "=0.1.5"
thiserror = "=2.0.21"
tokio = { version = "=1.54.1", features = ["process", "macros", "rt-multi-thread"] }

[dev-dependencies]
regex = "=1.13.1"
