[package]
name = "zo_gateway"
version = "0.1.0"
edition = "2021"
publish = false

[dependencies]
fixed = "*"
solana-sdk = "*"
zo-abi = "*"
tokio = { version = "*", features = ["rt-multi-thread", "macros"] }
serde = { version = "*", features = ["derive"] }
clap = { version = "*", features = ["derive"] }
dotenv = "*"
env_logger = "*"
thiserror = "*"
