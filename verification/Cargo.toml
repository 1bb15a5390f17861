[package]
name = "tars_deploy"
version = "0.1.0"
edition = "2021"
publish = false

[dependencies]
anyhow = "*"
chrono = "*"
clap = { version = "*", features = ["derive"] }
console = "*"
dialoguer = "*"
serde = { version = "*", features = ["derive"] }
serde_json = "*"
shellexpand = "*"
solana-program = "*"
spl-associated-token-account = "*"
spl-token = "*"
thiserror = "*"
tracing = "*"
