[package]
name = "video_merger"
version = "0.1.0"
edition = "2021"
publish = false

[dependencies]
anyhow = "=1.0.104"
async-trait = "=0.1.92"
cpal = "0.15"
directories = "=5.0.1"
ffmpeg-next = "=7.1.0"
futures = "=0.3.34"
image = { version = "=0.25.10", default-features = false, features = ["jpeg"] }
num_cpus = "=1.17.0"
opener = { version = "=0.7.2", features = ["reveal"] }
rfd = "0.14"
ringbuf = "=0.4.8"
serde = { version = "=1.0.229", features = ["derive"] }
serde_json = "=1.0.154"
thiserror = "=1.0.69"
tokio = { version = "=1.54.1", features = ["full"] }
tokio-util = "=0.7.20"
toml = "=0.8.23"
tracing = "=0.1.44"
tracing-subscriber = { version = "=0.3.23", features = ["env-filter"] }
uuid = { version = "=1.29.0", features = ["v4", "serde"] }
