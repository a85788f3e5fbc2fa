[package]
name = "sortcrab"
version = "0.1.3"
edition = "2021"
publish = false

[dependencies]
chrono = "0.4"
clap = { version = "4", features = ["derive"] }
clap_complete = "4"
directories = "*"
env_logger = "*"
log = "0.4"
serde = { version = "1", features = ["derive"] }
shellexpand = "*"
thiserror = "*"
toml = "*"
tracing = "0.1"

[dev-dependencies]
tempfile = "3"
