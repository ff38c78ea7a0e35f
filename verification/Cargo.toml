[package]
name = "bitcoin_wallet"
version = "0.1.0"
edition = "2021"
publish = false

[dependencies]
sha2 = "=0.11.0"
ripemd = "=0.2.0"
bs58 = "=0.5.1"
candid = "=0.10.37"
ic-cdk = "=0.12.3"
ic-cdk-macros = "=0.8.4"
ic-stable-structures = "=0.7.2"
serde = { version = "=1.0.229", features = ["derive"] }
serde_json = "=1.0.151"
