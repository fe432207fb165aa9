[package]
name = "dodemansknop"
version = "0.1.0"
edition = "2021"
publish = false

[dependencies]
chrono = "=0.4.45"
env_logger = "=0.11.11"
log = "=0.4.34"
timer = "=0.2.0"
tokio = { version = "=1.53.2", features = ["macros", "rt-multi-thread"] }
warp = { version = "=0.4.3", features = ["server"] }
