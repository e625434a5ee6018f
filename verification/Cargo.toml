[package]
name = "habctl"
version = "0.1.0"
edition = "2021"
publish = false

[dependencies]
anyhow = "*"
bytes = "*"
chrono = "*"
futures = "*"
i2c-linux = "*"
log = "*"
pretty_env_logger = "*"
serde = { version = "*", features = ["derive"] }
serial-io = "*"
tokio = { version = "*", features = ["full"] }
tokio-stream = "*"
tokio-util = { version = "*", features = ["codec"] }
toml = "*"
warp = { version = "=0.4.3", features = ["server", "websocket"] }
