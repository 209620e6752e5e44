[package]
name = "mcap_replay"
version = "0.1.0"
edition = "2021"
publish = false

[dependencies]
anyhow = "=1.0.104"
bytes = "=1.12.1"
chrono = "=0.4.45"
clap = { version = "=4.6.7", features = ["derive"] }
ctrlc = "=3.5.2"
env_logger = "=0.11.11"
foxglove = { version = "=0.3.0", features = ["unstable"] }
lz4 = "=1.28.1"
mcap = "=0.15.1"
termion = "=4.0.6"
tracing = "=0.1.44"
zstd = "=0.11.2"
