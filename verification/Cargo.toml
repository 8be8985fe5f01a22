[package]
name = "std_test_device"
version = "0.1.0"
edition = "2021"
publish = false

[dependencies]
clap = { version = "*", features = ["derive"] }
embassy-executor = "*"
embassy-futures = "*"
embassy-sync = "*"
embassy-time = { version = "*", features = ["std"] }
log = "*"
nalgebra = "*"
rand = "*"
rand_distr = "*"
tokio = { version = "*", features = ["rt-multi-thread"] }
