[package]
name = "port_finance_staking"
version = "0.1.0"
edition = "2021"
publish = false

[dependencies]
solana-program = "1.18"
spl-token = { version = "4.0", default-features = false, features = ["no-entrypoint"] }
thiserror = "1.0"
num-derive = "0.4"
num-traits = "0.2"
clap = "2.33"
solana-clap-utils = "1.18"
solana-cli-config = "1.18"
solana-logger = "1.18"
solana-sdk = "1.18"
