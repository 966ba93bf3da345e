[package]
name = "cpu_affinity_tool"
version = "0.1.0"
edition = "2021"
publish = false

[dependencies]
serde = { version = "1", features = ["derive"] }
serde_json = "1"
num_cpus = "1"
shlex = "1"
