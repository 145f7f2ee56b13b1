[package]
name = "decay_data"
version = "0.1.0"
edition = "2021"
publish = false

[dependencies]
anyhow = "1"
float-pretty-print = "*"
once_cell = "1"
serde = { version = "1", features = ["derive"] }
serde_plain = "1"
serde_with = "*"
thiserror = "1"
