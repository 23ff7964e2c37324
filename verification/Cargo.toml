[package]
name = "hook_amm"
version = "0.1.0"
edition = "2021"
publish = false

[dependencies]
solana-program = "*"
spl-tlv-account-resolution = "*"
spl-transfer-hook-interface = "*"

[dev-dependencies]
borsh = "*"
