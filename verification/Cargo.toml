[package]
name = "pooled_io"
version = "0.1.0"
edition = "2021"
publish = false

[dependencies]
bytes = "=1.12.1"
crossbeam-queue = "=0.3.14"
futures-util = { version = "=0.3.34", features = ["io"] }
pin-project-lite = "=0.2.17"
