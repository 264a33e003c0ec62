[package]
name = "magic_hat"
version = "0.1.0"
edition = "2021"
publish = false

[dependencies]
solana-program = "=1.9.29"
anchor-lang = { version = "=0.24.2", features = ["init-if-needed"] }
anchor-spl = { version = "=0.24.2", default-features = false, features = ["token"] }
spl-token = { version = "=3.3.0", features = ["no-entrypoint"] }
mpl-token-metadata = { version = "=1.4.3", features = ["no-entrypoint"] }
solana-gateway = "=0.2.2"
