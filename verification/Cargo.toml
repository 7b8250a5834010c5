[package]
name = "burst"
version = "0.1.0"
edition = "2021"
publish = false

[dependencies]
futures = "=0.3.34"
rusoto_core = "=0.48.0"
rusoto_ec2 = "=0.48.0"
termion = "=4.0.6"
tokio = { version = "=1.54.1", features = ["time"] }
