[package]
name = "soldb_program"
version = "0.1.0"
edition = "2021"
publish = false

[dependencies]
borsh = { version = "1", features = ["derive"] }
solana-program = "2"
solana-program-error = "2"
solana-system-interface = { version = "1", features = ["bincode"] }

[dev-dependencies]
borsh = { version = "1", features = ["derive"] }
