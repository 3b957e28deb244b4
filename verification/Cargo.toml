[package]
name = "cargo_features"
version = "0.1.0"
edition = "2021"
publish = false

[dependencies]
anyhow = "1"
cargo = "=0.86.0"
cargo-util = "=0.2.14"
clap = { version = "4", default-features = false, features = ["derive", "std", "help", "usage", "error-context"] }
colored = "2"
kstring = "=2.0.0"
semver = "=1.0.28"
serde = { version = "1", features = ["derive"] }
toml = "=0.5.11"
