[package]
name = "rgb_verify"
version = "0.12.0"
edition = "2021"
publish = false

[dependencies]
amplify = "=4.9.0"
single_use_seals = { version = "=0.12.0", features = ["strict_encoding"] }
strict_encoding = { version = "=2.9.1", features = ["derive"] }
ultrasonic = "=0.12.0"
tracing = "=0.1.44"

[dev-dependencies]
bp-core = "=0.12.0"
commit_verify = "=0.12.1"
