[package]
name = "bench_viewer"
version = "0.1.0"
edition = "2021"
publish = false

[dependencies]
regex = "1"
serde = { version = "1", features = ["derive"] }
serde_json = "1"
iron = "0.6"
mount = "0.4"
staticfile = "0.5"
clap = "2"
