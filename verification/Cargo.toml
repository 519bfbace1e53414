[package]
name = "note_program"
version = "0.1.0"
edition = "2021"
publish = false

[dependencies]
borsh = { version = "1", features = ["derive"] }
solana-program = "*"
solana-system-interface = { version = "*", features = ["bincode"] }
thiserror = "*"
