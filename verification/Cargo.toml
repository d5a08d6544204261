[package]
name = "crazyradio_server"
version = "0.1.0"
edition = "2021"
publish = false

[dependencies]
rand = "=0.8.8"
serde = { version = "=1.0.229", features = ["derive"] }
serde_json = "=1.0.154"
zmq = "=0.10.0"
crazyflie-link = "=0.5.1"
crazyradio = "=0.7.0"
crossbeam-channel = "=0.5.17"
crossbeam-utils = "=0.8.23"
clap = { version = "=4.6.7", features = ["derive"] }
log = "=0.4.35"
pretty_env_logger = "=0.5.0"
tokio = { version = "=1.54.1", features = ["rt-multi-thread", "time"] }
