[package]
name = "frigate_zmq_detector"
version = "0.1.0"
edition = "2021"
publish = false

[dependencies]
clap = { version = "=4.6.7", features = ["derive", "env"] }
edgefirst-tflite = "=0.9.0"
env_logger = "=0.11.11"
log = "=0.4.35"
serde_json = "=1.0.154"
tokio = { version = "=1.54.1", features = ["macros", "rt-multi-thread", "time"] }
zeromq = "=0.7.0"
