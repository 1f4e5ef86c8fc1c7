[package]
name = "openbook_v2_fuzz"
version = "0.1.0"
edition = "2021"
publish = false

[dependencies]
fixed = "1"
arbitrary = "1"
solana-program = "*"
spl-associated-token-account = "*"
anchor-spl = "*"
