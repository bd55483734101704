[package]
name = "prover_inputs"
version = "0.1.0"
edition = "2021"
publish = false

[dependencies]
bincode = { version = "=2.0.1", default-features = false, features = ["std", "serde"] }
eyre = "=0.6.14"
openvm-circuit = { version = "=2.0.2", default-features = false }
openvm-sdk = { version = "=2.0.2", default-features = false }
openvm-sdk-config = { version = "=2.0.2", default-features = false }
openvm-stark-sdk = { version = "=2.0.1", default-features = false }
serde = { version = "=1.0.229", features = ["derive"] }
toml = "=0.8.23"
tracing-subscriber = { version = "=0.3.23", default-features = false, features = ["std", "fmt", "ansi", "registry", "env-filter"] }
