[package]
name = "person_token"
version = "0.1.0"
edition = "2021"
publish = false

[dependencies]
solana-program = "2"
spl-token-2022 = "6"
spl-token-metadata-interface = "0.6"
spl-pod = "0.5"
spl-associated-token-account = "6"
