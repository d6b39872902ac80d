[package]
name = "schemars_client_gen"
version = "0.1.0"
edition = "2021"
publish = false

[dependencies]
schemars = "=0.8.22"
serde = { version = "*", features = ["derive"] }
serde_json = "*"
clap = { version = "*", features = ["derive"] }
