[package]
name = "fankor_macros"
version = "0.1.0"
edition = "2021"
publish = false

[dependencies]
bs58 = "0.4"
convert_case = "0.6"
serde = { version = "1", features = ["derive"] }
toml = "0.5"
syn = { version = "1", features = ["full", "extra-traits"] }
quote = "1"
proc-macro2 = "1"
solana-program = "1.16"
