[package]
name = "pumpkin_world"
version = "0.1.0"
edition = "2021"
publish = false

[dependencies]
crossbeam = "0.8"
dashmap = "6"
log = "0.4"
num-traits = "0.2"
num_cpus = "1"
rand = { version = "0.9", features = ["small_rng"] }
tokio = { version = "1", features = ["macros", "rt", "sync", "time"] }
tokio-util = { version = "0.7", features = ["rt"] }
