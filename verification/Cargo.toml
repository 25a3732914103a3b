[package]
name = "libmussh"
version = "0.1.0"
edition = "2021"
publish = false

[dependencies]
chrono = "0.4"
clap = "2"
indexmap = "1"
serde = { version = "1", features = ["derive"] }
serde_derive = "1"
slog = "2"
slog-try = "*"
ssh2 = "*"
toml = "0.5"
wait_group = "*"
