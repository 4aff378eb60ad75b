[package]
name = "rosserial_rs"
version = "0.1.0"
edition = "2021"
publish = false

[dependencies]
env_logger = "*"
futures = "*"
log = "*"
ros-core-rs = "*"
rosrust = "*"
rosrust_msg = "*"
tokio = { version = "*", features = ["macros", "rt-multi-thread", "signal", "sync"] }
tokio-serial = { version = "*", default-features = false }
tokio-stream = "*"
tokio-util = { version = "*", features = ["codec"] }
url = "*"
