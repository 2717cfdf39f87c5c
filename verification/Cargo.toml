[package]
name = "omni_resources"
version = "0.1.0"
edition = "2021"
publish = false

[dependencies]
regex = "1"
time = { version = "0.3", features = ["serde-well-known"] }
itertools = "*"
serde = { version = "1", features = ["derive"] }
serde_json = "1"
glob = "0.3"
which = "*"
duct = "*"
tokio = { version = "1", features = ["process"] }
once_cell = "1"
lazy_static = "1"
