[package]
name = "agy-search"
version = "0.1.0"
edition = "2021"
publish = false

[dependencies]
clap = { version = "4", features = ["derive", "env"] }
serde = { version = "1", features = ["derive"] }
serde_json = "1"
schemars = "1"
tokio = { version = "1", features = ["full"] }
nix = { version = "*", features = ["signal", "process"] }
tempfile = "3"
thiserror = "2"
