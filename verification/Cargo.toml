[package]
name = "gepetto"
version = "0.1.0"
edition = "2021"
publish = false

[dependencies]
anyhow = "*"
chrono = "*"
clap = { version = "*", features = ["derive"] }
console = "*"
dialoguer = "*"
solana-sdk = "*"
tera = "*"
tokio = { version = "*", features = ["macros", "rt-multi-thread"] }
