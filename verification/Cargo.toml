[package]
name = "pqvm"
version = "0.1.0"
edition = "2021"
publish = false

[dependencies]
alloy-primitives = { version = "=1.7.3", default-features = false, features = ["std", "serde"] }
blake3 = "=1.8.7"
hex = "=0.4.3"
# The vector code of the two signature crates stays off: every machine runs the portable
# verifier, so that all of them agree on every signature.
pqcrypto-dilithium = { version = "=0.5.0", default-features = false, features = ["std"] }
pqcrypto-sphincsplus = { version = "=0.7.2", default-features = false, features = ["std"] }
pqcrypto-traits = "=0.3.5"
serde = { version = "1", features = ["derive"] }
thiserror = "2"
