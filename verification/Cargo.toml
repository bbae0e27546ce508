[package]
name = "solana-falcon-auth"
version = "0.1.0"
edition = "2021"
publish = false

[dependencies]
sha3 = "=0.10.9"
solana-program = "=5.2.0"
solana-falcon512 = "=0.1.2"
solana-nostd-keccak = "=0.2.0"
solana-system-interface = { version = "=3.3.0", features = ["bincode"] }

[dev-dependencies]
fips204 = "=0.5.0"
pqcrypto-falcon = "=0.4.1"
pqcrypto-traits = "=0.3.5"
