[package]
name = "parimutuel"
version = "0.1.0"
edition = "2021"
publish = false

[dependencies]
anchor-lang = { version = "0.30.1", features = ["init-if-needed"] }
anchor-spl = { version = "0.30.1", default-features = false, features = ["token", "token_2022"] }
solana-program = "1.18"
spl-token-2022 = { version = "3.0", default-features = false, features = ["no-entrypoint"] }
