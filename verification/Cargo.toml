[package]
name = "crate_registry"
version = "0.1.0"
edition = "2021"
publish = false

[dependencies]
serde_json = "=1.0.154"
sha256 = "=1.6.0"
serde = { version = "=1.0.229", features = ["derive"] }
clap = { version = "=4.6.7", features = ["derive", "env"] }
futures-util = "=0.3.34"
http-body-util = "=0.1.5"
log = "=0.4.34"
octocrab = "=0.41.2"
poem = "=3.1.12"
tokio = { version = "=1.54.1", features = ["full"] }
tracing-subscriber = "=0.3.23"
