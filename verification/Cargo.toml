[package]
name = "gwt"
version = "0.1.0"
edition = "2021"
publish = false

[dependencies]
anyhow = "1"
clap = { version = "4", features = ["derive"] }
clap_complete = { version = "4", features = ["unstable-dynamic"] }
clap_mangen = "0.2"
crossterm = "0.28"
serde = { version = "1", features = ["derive"] }
toml = "0.8"
