[package]
name = "cougr_games"
version = "0.1.0"
edition = "2021"
publish = false

[dependencies]
soroban-sdk = "=25.3.2"
cougr-core = "=1.1.0"

[dev-dependencies]
soroban-sdk = { version = "=25.3.2", features = ["testutils"] }
cougr-core = { version = "=1.1.0", features = ["testutils"] }
